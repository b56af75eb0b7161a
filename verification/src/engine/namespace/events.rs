//! What happens to a namespace.
use vstd::prelude::*;

use crate::adapter::endpoint_demand::{demanded, demands_destroyed, next_after, with_demand};
use crate::adapter::management::commanded;
use crate::adapter::ports::{off_worker, ports_of};
use crate::adapter::{dns_registry, endpoint};
use crate::engine::namespace::assignments::AssignmentsView;
use crate::engine::namespace::commands::{endpoint_spec, peer_spec};
use crate::engine::namespace::effects::{NamespaceEffects, NamespaceEffectsView};
use crate::engine::namespace::router::{
    demand_views, endpoint_at, push_demands, router_views, RouterOp, RouterOpView, RouterSnapshot,
};
use crate::engine::namespace::Namespace;
use crate::engine::protocol::{CommandView, EndpointSpec, WorkerCommand};
use crate::engine::types::{NamespacePatch, WorkerNamespaceEventKind};
use crate::ids::NamespaceId;
use crate::namespace::wireguard::WgPeerOutput;
use crate::sm::{
    ArtifactPortId, EndpointId, EndpointInfo, PodId, PodStatus, WireGuardPeerEndpointInfo,
    WireGuardPeerId, WorkerId, WorkerInfo,
};
use crate::sorted_map::{as_map, increasing, lemma_position_unique, Key, SortedMap};
use crate::text::{chars_of, number, parse_number};
use crate::types::{clone_pool, NamespaceSpec, RegistryEntry};

verus! {

/// The grants that are not for a worker, in order.
pub open spec fn grants_off(grants: Seq<(PodId, WorkerId)>, worker_id: WorkerId) -> Seq<
    (PodId, WorkerId),
>
    decreases grants.len(),
{
    if grants.len() == 0 {
        seq![]
    } else if grants.last().1 == worker_id {
        grants_off(grants.drop_last(), worker_id)
    } else {
        grants_off(grants.drop_last(), worker_id).push(grants.last())
    }
}

/// The pods that were granted to a worker, in order.
pub open spec fn grants_for(grants: Seq<(PodId, WorkerId)>, worker_id: WorkerId) -> Seq<PodId>
    decreases grants.len(),
{
    if grants.len() == 0 {
        seq![]
    } else if grants.last().1 == worker_id {
        grants_for(grants.drop_last(), worker_id).push(grants.last().0)
    } else {
        grants_for(grants.drop_last(), worker_id)
    }
}

/// The names for a new worker.
pub open spec fn entries(names: Seq<(String, u32)>) -> Seq<RegistryEntry> {
    names.map_values(|n: (String, u32)| RegistryEntry { name: n.0, ip: n.1 })
}

/// The endpoints for a new worker.
pub open spec fn endpoint_list(
    endpoints: Seq<(EndpointId, EndpointInfo)>,
    peers: Seq<(WireGuardPeerId, WireGuardPeerEndpointInfo)>,
) -> Seq<EndpointSpec> {
    endpoints.map_values(|e: (EndpointId, EndpointInfo)| endpoint_spec(e.1)) + peers.map_values(
        |p: (WireGuardPeerId, WireGuardPeerEndpointInfo)| peer_spec(p.1),
    )
}

/// The clients that are reached through a worker.
pub open spec fn peers_told<E>(
    e: NamespaceEffectsView<E>,
    namespace_id: NamespaceId,
    worker_id: WorkerId,
    peers: Seq<(WireGuardPeerId, WireGuardPeerEndpointInfo)>,
) -> NamespaceEffectsView<E>
    decreases peers.len(),
{
    if peers.len() == 0 {
        e
    } else {
        let rest = peers_told(e, namespace_id, worker_id, peers.drop_last());
        let info = peers.last().1;
        if info.worker_id == worker_id {
            rest.commanded(
                worker_id,
                CommandView::AddWireGuardPeer {
                    namespace_id,
                    peer_public_key: info.peer_public_key,
                    peer_ip: info.peer_ip,
                    preshared_key: None,
                },
            )
        } else {
            rest
        }
    }
}

/// The ports of clients after some outputs of the allocation of addresses, the first free number, and
/// what brings the ports about.
pub open spec fn peers_added(
    ports: Map<Seq<u8>, WireGuardPeerId>,
    next: u64,
    worker_id: WorkerId,
    outputs: Seq<WgPeerOutput>,
) -> (Map<Seq<u8>, WireGuardPeerId>, u64, Seq<RouterOpView>)
    decreases outputs.len(),
{
    if outputs.len() == 0 {
        (ports, next, seq![])
    } else {
        let (p, n, ops) = peers_added(ports, next, worker_id, outputs.drop_last());
        match outputs.last() {
            WgPeerOutput::AddPeer { peer_public_key, peer_ip } => (
                p.insert(peer_public_key@, WireGuardPeerId(n)),
                (n + 1) as u64,
                ops.push(
                    RouterOpView::CreatePeer {
                        peer: WireGuardPeerId(n),
                        info: WireGuardPeerEndpointInfo { peer_ip, worker_id, peer_public_key },
                    },
                ),
            ),
            WgPeerOutput::RemovePeer { .. } => (p, n, ops),
        }
    }
}

/// The ports of clients after some outputs of the allocation of addresses, and what takes the ports
/// away.
pub open spec fn peers_removed(
    ports: Map<Seq<u8>, WireGuardPeerId>,
    outputs: Seq<WgPeerOutput>,
) -> (Map<Seq<u8>, WireGuardPeerId>, Seq<RouterOpView>)
    decreases outputs.len(),
{
    if outputs.len() == 0 {
        (ports, seq![])
    } else {
        let (p, ops) = peers_removed(ports, outputs.drop_last());
        match outputs.last() {
            WgPeerOutput::RemovePeer { peer_public_key } => if p.contains_key(peer_public_key@) {
                (
                    p.remove(peer_public_key@),
                    ops.push(RouterOpView::DestroyPeer { peer: p[peer_public_key@] }),
                )
            } else {
                (p, ops)
            },
            WgPeerOutput::AddPeer { .. } => (p, ops),
        }
    }
}

/// The names of a list.
pub open spec fn name_set<K: Key>(names: Seq<K>) -> Set<K::Id> {
    Set::new(|n: K::Id| exists|i: int| 0 <= i < names.len() && (#[trigger] names[i]).id() == n)
}

/// A spec after a change to part of it: what is removed goes first, then what is set comes.
pub open spec fn is_patched(current: NamespaceSpec, patch: NamespacePatch, r: NamespaceSpec) -> bool {
    &&& r.network == current.network
    &&& r.workloads@ == current.workloads@.remove_keys(
        name_set(patch.remove_workloads@),
    ).union_prefer_right(patch.workloads@)
    &&& r.services@ == current.services@.remove_keys(
        name_set(patch.remove_services@),
    ).union_prefer_right(patch.services@)
}

/// A table without some entries, and then with others.
fn patched_table<K: Key, V: Clone>(
    current: &SortedMap<K, V>,
    gone: &Vec<K>,
    set: &SortedMap<K, V>,
) -> (r: SortedMap<K, V>)
    requires
        forall|v: &V| #[trigger] call_requires(V::clone, (v,)),
        forall|v: &V, c: V| #[trigger] call_ensures(V::clone, (v,), c) ==> c == *v,
    ensures
        r@ == current@.remove_keys(name_set(gone@)).union_prefer_right(set@),
{
    let copy = |_k: &K, v: &V| -> (r: V)
        ensures
            r == *v,
        {
            v.clone()
        };
    let mut table: SortedMap<K, V> = current.map_to(copy);
    assert(table@ =~= current@);
    let mut i: usize = 0;
    assert(table@ =~= current@.remove_keys(name_set(gone@.take(0))));
    while i < gone.len()
        invariant
            i <= gone@.len(),
            table@ == current@.remove_keys(name_set(gone@.take(i as int))),
        decreases gone@.len() - i,
    {
        let ghost s = gone@;
        let _ = table.remove(&gone[i]);
        i = i + 1;
        proof {
            lemma_name_set(s, i - 1);
            assert(table@ =~= current@.remove_keys(name_set(s.take(i as int))));
        }
    }
    assert(gone@.take(i as int) =~= gone@);
    let ghost base = table@;
    let n: usize = set.len();
    let ghost p = set.seq();
    let mut i: usize = 0;
    assert(table@ =~= base.union_prefer_right(as_map(p.take(0))));
    while i < n
        invariant
            i <= n,
            n == p.len(),
            p == set.seq(),
            increasing(p),
            table@ == base.union_prefer_right(as_map(p.take(i as int))),
            forall|v: &V| #[trigger] call_requires(V::clone, (v,)),
            forall|v: &V, c: V| #[trigger] call_ensures(V::clone, (v,), c) ==> c == *v,
        decreases n - i,
    {
        table.insert(set.key_at(i).duplicate(), set.value_at(i).clone());
        proof {
            lemma_one_more(p, i as int);
        }
        i = i + 1;
        assert(table@ =~= base.union_prefer_right(as_map(p.take(i as int))));
    }
    assert(p.take(i as int) =~= p);
    table
}

proof fn lemma_name_set<K: Key>(s: Seq<K>, i: int)
    requires
        0 <= i < s.len(),
    ensures
        name_set(s.take(i + 1)) == name_set(s.take(i)).insert(s[i].id()),
{
    let (a, b) = (s.take(i), s.take(i + 1));
    assert forall|n: K::Id|
        name_set(b).contains(n) <==> name_set(a).insert(s[i].id()).contains(n) by {
        if name_set(b).contains(n) {
            let j = choose|j: int| 0 <= j < b.len() && (#[trigger] b[j]).id() == n;
            if j < i {
                assert(a[j].id() == n);
            }
        }
        if name_set(a).contains(n) {
            let j = choose|j: int| 0 <= j < a.len() && (#[trigger] a[j]).id() == n;
            assert(b[j].id() == n);
        }
        assert(b[i] == s[i]);
    }
    assert(name_set(b) =~= name_set(a).insert(s[i].id()));
}

/// A spec after a change to part of it.
pub fn patched(current: &NamespaceSpec, patch: &NamespacePatch) -> (r: NamespaceSpec)
    ensures
        is_patched(*current, *patch, r),
{
    NamespaceSpec {
        network: current.network,
        workloads: patched_table(&current.workloads, &patch.remove_workloads, &patch.workloads),
        services: patched_table(&current.services, &patch.remove_services, &patch.services),
    }
}

proof fn lemma_one_more<K: Key, V>(s: Seq<(K, V)>, i: int)
    requires
        increasing(s),
        0 <= i < s.len(),
    ensures
        as_map(s.take(i + 1)) == as_map(s.take(i)).insert(s[i].0.id(), s[i].1),
{
    let a = s.take(i);
    let b = s.take(i + 1);
    assert(increasing(a));
    assert(increasing(b));
    assert forall|k: K::Id|
        as_map(b).contains_key(k) <==> as_map(a).contains_key(k) || k == s[i].0.id() by {
        if as_map(b).contains_key(k) {
            let q = crate::sorted_map::position(b, k);
            if q < i {
                assert(a[q] == b[q]);
            }
        }
        if as_map(a).contains_key(k) {
            let q = crate::sorted_map::position(a, k);
            assert(b[q] == a[q]);
        }
        assert(b[i] == s[i]);
    }
    assert forall|k: K::Id| as_map(b).contains_key(k) implies as_map(b)[k] == as_map(a).insert(
        s[i].0.id(),
        s[i].1,
    )[k] by {
        let q = crate::sorted_map::position(b, k);
        lemma_position_unique(b, q);
        if q < i {
            assert(a[q] == b[q]);
            lemma_position_unique(a, q);
            assert(K::before(b[q].0.id(), b[i].0.id()));
            K::before_irreflexive(b[i].0.id());
        }
    }
    assert(as_map(b) =~= as_map(a).insert(s[i].0.id(), s[i].1));
}

/// What a worker that is active reports, as the router is to hear it.
pub open spec fn dispatched(
    event: WorkerNamespaceEventKind,
    worker_id: WorkerId,
    pods: Set<PodId>,
) -> Seq<RouterOpView> {
    match event {
        WorkerNamespaceEventKind::PodRunning { pod_id } => status_told(
            worker_id,
            pod_id,
            PodStatus::Running,
            pods,
        ),
        WorkerNamespaceEventKind::PodExited { pod_id, exit_code } => status_told(
            worker_id,
            pod_id,
            if exit_code == 0 {
                PodStatus::Finished
            } else {
                PodStatus::Failed
            },
            pods,
        ),
        WorkerNamespaceEventKind::PodFailed { pod_id } => status_told(
            worker_id,
            pod_id,
            PodStatus::Failed,
            pods,
        ),
        WorkerNamespaceEventKind::PodSuspendFailed { pod_id } => status_told(
            worker_id,
            pod_id,
            PodStatus::Failed,
            pods,
        ),
        WorkerNamespaceEventKind::PodSuspended { pod_id, artifact_id } => if pods.contains(pod_id) {
            seq![
                RouterOpView::NotifyPodSuspended {
                    worker_id,
                    pod_id,
                    artifact: ArtifactPortId(
                        number(artifact_id.0@, 10, u64::MAX as nat)->0 as u64,
                    ),
                },
            ]
        } else {
            seq![]
        },
        _ => seq![],
    }
}

/// The status of a pod, if the router knows the pod.
pub open spec fn status_told(
    worker_id: WorkerId,
    pod_id: PodId,
    status: PodStatus,
    pods: Set<PodId>,
) -> Seq<RouterOpView> {
    if pods.contains(pod_id) {
        seq![RouterOpView::NotifyPodStatus { worker_id, pod_id, status }]
    } else {
        seq![]
    }
}

impl Namespace {
    /// A worker is gone.
    pub open spec fn departed(
        self,
        worker_id: WorkerId,
        after: Namespace,
        ops: Seq<RouterOpView>,
    ) -> bool {
        &&& after == Namespace {
            active_workers: after.active_workers,
            pending_workers: after.pending_workers,
            deferred_grants: after.deferred_grants,
            assignments: after.assignments,
            endpoint_demand: after.endpoint_demand,
            ..self
        }
        &&& after.active_workers@ == self.active_workers@.remove(worker_id)
        &&& after.pending_workers@ == self.pending_workers@.remove(worker_id)
        &&& after.deferred_grants@ == grants_off(self.deferred_grants@, worker_id)
        &&& if self.active_workers@.contains_key(worker_id) {
            &&& after.assignments@ == self.assignments@.without_worker(worker_id)
            &&& after.endpoint_demand@ == off_worker(self.endpoint_demand@, worker_id)
            &&& ops == demand_views(
                demands_destroyed(ports_of(self.endpoint_demand.seq(), worker_id)),
            ).push(RouterOpView::DestroyWorker { worker_id })
        } else {
            &&& after.assignments == self.assignments
            &&& after.endpoint_demand == self.endpoint_demand
            &&& ops == Seq::<RouterOpView>::empty()
        }
    }

    fn drop_deferred(&mut self, worker_id: WorkerId)
        ensures
            *final(self) == (Namespace {
                deferred_grants: final(self).deferred_grants,
                ..*old(self)
            }),
            final(self).deferred_grants@ == grants_off(old(self).deferred_grants@, worker_id),
    {
        let ghost s = self.deferred_grants@;
        let mut kept: Vec<(PodId, WorkerId)> = Vec::new();
        let mut i: usize = 0;
        assert(s.take(0) =~= Seq::<(PodId, WorkerId)>::empty());
        while i < self.deferred_grants.len()
            invariant
                i <= s.len(),
                *self == *old(self),
                s == self.deferred_grants@,
                kept@ == grants_off(s.take(i as int), worker_id),
            decreases s.len() - i,
        {
            assert(s.take(i + 1).drop_last() =~= s.take(i as int));
            assert(s.take(i + 1).last() == s[i as int]);
            let g: (PodId, WorkerId) = self.deferred_grants[i];
            if g.1 != worker_id {
                kept.push(g);
            }
            i = i + 1;
        }
        assert(s.take(i as int) =~= s);
        self.deferred_grants = kept;
    }

    pub fn worker_disconnected(&mut self, worker_id: WorkerId) -> (r: Vec<RouterOp>)
        requires
            old(self).sound(),
        ensures
            final(self).sound(),
            old(self).departed(worker_id, *final(self), router_views(r@)),
    {
        let mut ops: Vec<RouterOp> = Vec::new();
        let was_active: bool = self.active_workers.remove(&worker_id).is_some();
        self.drop_deferred(worker_id);
        if was_active {
            self.assignments.forget_worker(worker_id);
            let gone = self.endpoint_demand.remove_worker(worker_id);
            push_demands(&mut ops, gone);
            let ghost mid = router_views(ops@);
            ops.push(RouterOp::DestroyWorker { worker_id });
            assert(router_views(ops@) =~= mid.push(RouterOpView::DestroyWorker { worker_id }));
        }
        let _ = self.pending_workers.remove(&worker_id);
        assert(router_views(ops@) =~= if old(self).active_workers@.contains_key(worker_id) {
            demand_views(demands_destroyed(ports_of(old(self).endpoint_demand.seq(), worker_id))).push(
                RouterOpView::DestroyWorker { worker_id },
            )
        } else {
            seq![]
        });
        ops
    }

    /// A grant is carried out if the worker's part in the namespace is up, and put off otherwise.
    pub open spec fn granted(
        self,
        worker_id: WorkerId,
        pod_id: PodId,
        pods: Set<PodId>,
        after: Namespace,
        ops: Seq<RouterOpView>,
    ) -> bool {
        if !self.active_workers@.contains_key(worker_id) {
            &&& after == Namespace { deferred_grants: after.deferred_grants, ..self }
            &&& after.deferred_grants@ == self.deferred_grants@.push((pod_id, worker_id))
            &&& ops == Seq::<RouterOpView>::empty()
        } else {
            let (a, n, o) = self.assignments@.all_granted(
                worker_id,
                seq![pod_id],
                pods,
                self.next_port,
            );
            &&& after == Namespace {
                assignments: after.assignments,
                next_port: after.next_port,
                ..self
            }
            &&& after.assignments@ == a
            &&& after.next_port == n
            &&& ops == o
        }
    }

    pub fn scheduler_granted(&mut self, worker_id: WorkerId, pod_id: PodId, snapshot: &RouterSnapshot) -> (r:
        Vec<RouterOp>)
        requires
            old(self).sound(),
            old(self).next_port < u64::MAX,
        ensures
            final(self).sound(),
            old(self).granted(
                worker_id,
                pod_id,
                snapshot.pods@.dom(),
                *final(self),
                router_views(r@),
            ),
    {
        let mut ops: Vec<RouterOp> = Vec::new();
        assert(router_views(ops@) =~= seq![]);
        if self.active_workers.contains_key(&worker_id) {
            let mut next: u64 = self.next_port;
            self.assignments.apply_grant(
                worker_id,
                pod_id,
                snapshot.pods.contains_key(&pod_id),
                &mut next,
                &mut ops,
            );
            self.next_port = next;
            proof {
                reveal_with_fuel(AssignmentsView::all_granted, 2);
                assert(seq![pod_id].drop_last() =~= seq![]);
                let (a, n, o) = old(self).assignments@.all_granted(
                    worker_id,
                    seq![pod_id],
                    snapshot.pods@.dom(),
                    old(self).next_port,
                );
                assert(router_views(ops@) =~= o);
            }
        } else {
            self.deferred_grants.push((pod_id, worker_id));
        }
        ops
    }

    pub fn scheduler_revoked(&mut self, pod_id: PodId) -> (r: Vec<RouterOp>)
        requires
            old(self).sound(),
        ensures
            final(self).sound(),
            *final(self) == (Namespace { assignments: final(self).assignments, ..*old(self) }),
            final(self).assignments@ == old(self).assignments@.revoked(pod_id),
            router_views(r@) == old(self).assignments@.revoke_ops(pod_id),
    {
        let mut ops: Vec<RouterOp> = Vec::new();
        self.assignments.revoke(pod_id, &mut ops);
        assert(router_views(ops@) =~= old(self).assignments@.revoke_ops(pod_id));
        ops
    }

    /// What a worker hears when its part in the namespace comes up: the names, the endpoints, and the
    /// clients that are reached through it.
    pub open spec fn welcomed<E>(self, e: NamespaceEffectsView<E>, worker_id: WorkerId) -> NamespaceEffectsView<E> {
        let named = if self.dns_registry.seq().len() == 0 {
            e
        } else {
            e.commanded(
                worker_id,
                CommandView::RegistrySync {
                    namespace_id: self.namespace_id,
                    entries: entries(self.dns_registry.seq()),
                },
            )
        };
        let all = endpoint_list(self.endpoint.endpoints(), self.endpoint.peers());
        let placed = if all.len() == 0 {
            named
        } else {
            named.commanded(
                worker_id,
                CommandView::EndpointSync { namespace_id: self.namespace_id, endpoints: all },
            )
        };
        peers_told(placed, self.namespace_id, worker_id, self.endpoint.peers())
    }

    /// A worker's part in the namespace is up. Grants that were put off are carried out.
    pub open spec fn came_up<E>(
        self,
        worker_id: WorkerId,
        pods: Set<PodId>,
        e: NamespaceEffectsView<E>,
        after: Namespace,
        ops: Seq<RouterOpView>,
        f: NamespaceEffectsView<E>,
    ) -> bool {
        if !self.pending_workers@.contains_key(worker_id) {
            &&& after == Namespace { pending_workers: after.pending_workers, ..self }
            &&& after.pending_workers@ == self.pending_workers@
            &&& ops == Seq::<RouterOpView>::empty()
            &&& f == e
        } else {
            let info = self.pending_workers@[worker_id];
            let (a, n, o) = self.assignments@.all_granted(
                worker_id,
                grants_for(self.deferred_grants@, worker_id),
                pods,
                self.next_port,
            );
            &&& after == Namespace {
                pending_workers: after.pending_workers,
                active_workers: after.active_workers,
                deferred_grants: after.deferred_grants,
                assignments: after.assignments,
                next_port: after.next_port,
                ..self
            }
            &&& after.pending_workers@ == self.pending_workers@.remove(worker_id)
            &&& after.active_workers@ == self.active_workers@.insert(worker_id, info.default_pool)
            &&& after.deferred_grants@ == grants_off(self.deferred_grants@, worker_id)
            &&& after.assignments@ == a
            &&& after.next_port == n
            &&& ops == seq![
                RouterOpView::CreateWorker { worker_id },
                RouterOpView::SetWorkerInfo { worker_id, info },
            ] + o
            &&& f == self.welcomed(e, worker_id)
        }
    }

    fn welcome<E>(&self, worker_id: WorkerId, effects: &mut NamespaceEffects<E>)
        requires
            self.sound(),
        ensures
            final(effects)@ == self.welcomed(old(effects)@, worker_id),
    {
        let names: Vec<(String, u32)> = self.dns_registry.build_sync();
        if names.len() > 0 {
            let mut list: Vec<RegistryEntry> = Vec::new();
            let mut i: usize = 0;
            while i < names.len()
                invariant
                    i <= names@.len(),
                    list@ == entries(names@.take(i as int)),
                decreases names@.len() - i,
            {
                list.push(RegistryEntry { name: names[i].0.clone(), ip: names[i].1 });
                i = i + 1;
                assert(list@ =~= entries(names@.take(i as int)));
            }
            assert(names@.take(i as int) =~= names@);
            effects.command(
                worker_id,
                WorkerCommand::RegistrySync {
                    namespace_id: self.namespace_id.clone(),
                    entries: list,
                },
            );
        }
        let endpoints: Vec<(EndpointId, EndpointInfo)> = self.endpoint.build_endpoint_sync();
        let peers: Vec<(WireGuardPeerId, WireGuardPeerEndpointInfo)> =
            self.endpoint.build_wg_peer_sync();
        let ghost none = peers@.take(0);
        let mut all: Vec<EndpointSpec> = Vec::new();
        let mut i: usize = 0;
        assert(all@ =~= endpoint_list(endpoints@.take(0), none));
        while i < endpoints.len()
            invariant
                i <= endpoints@.len(),
                none.len() == 0,
                self.sound(),
                increasing(endpoints@),
                as_map(endpoints@) == self.endpoint@.endpoints,
                all@ == endpoint_list(endpoints@.take(i as int), none),
            decreases endpoints@.len() - i,
        {
            proof {
                lemma_position_unique(endpoints@, i as int);
                assert(self.endpoint@.endpoints.contains_key(endpoints@[i as int].0));
            }
            all.push(Self::build_endpoint_spec_from_info(&endpoints[i].1));
            i = i + 1;
            assert(all@ =~= endpoint_list(endpoints@.take(i as int), none));
        }
        assert(endpoints@.take(i as int) =~= endpoints@);
        let mut i: usize = 0;
        assert(none =~= peers@.take(0));
        while i < peers.len()
            invariant
                i <= peers@.len(),
                all@ == endpoint_list(endpoints@, peers@.take(i as int)),
            decreases peers@.len() - i,
        {
            all.push(Self::build_peer_spec(&peers[i].1));
            i = i + 1;
            assert(all@ =~= endpoint_list(endpoints@, peers@.take(i as int)));
        }
        assert(peers@.take(i as int) =~= peers@);
        if all.len() > 0 {
            effects.command(
                worker_id,
                WorkerCommand::EndpointSync {
                    namespace_id: self.namespace_id.clone(),
                    endpoints: all,
                },
            );
        }
        let ghost start = effects@;
        let mut i: usize = 0;
        assert(peers@.take(0) =~= Seq::<(WireGuardPeerId, WireGuardPeerEndpointInfo)>::empty());
        while i < peers.len()
            invariant
                i <= peers@.len(),
                effects@ == peers_told(
                    start,
                    self.namespace_id,
                    worker_id,
                    peers@.take(i as int),
                ),
            decreases peers@.len() - i,
        {
            assert(peers@.take(i + 1).drop_last() =~= peers@.take(i as int));
            assert(peers@.take(i + 1).last() == peers@[i as int]);
            let info: WireGuardPeerEndpointInfo = peers[i].1;
            if info.worker_id == worker_id {
                effects.command(
                    worker_id,
                    WorkerCommand::AddWireGuardPeer {
                        namespace_id: self.namespace_id.clone(),
                        peer_public_key: info.peer_public_key,
                        peer_ip: info.peer_ip,
                        preshared_key: None,
                    },
                );
            }
            i = i + 1;
        }
        assert(peers@.take(i as int) =~= peers@);
    }

    /// A worker's part in the namespace is up.
    pub fn handle_namespace_created<E>(
        &mut self,
        worker_id: WorkerId,
        snapshot: &RouterSnapshot,
        effects: &mut NamespaceEffects<E>,
    ) -> (r: Vec<RouterOp>)
        requires
            old(self).sound(),
            old(self).next_port + old(self).deferred_grants@.len() <= u64::MAX,
        ensures
            final(self).sound(),
            old(self).came_up(
                worker_id,
                snapshot.pods@.dom(),
                old(effects)@,
                *final(self),
                router_views(r@),
                final(effects)@,
            ),
    {
        let mut ops: Vec<RouterOp> = Vec::new();
        let info: WorkerInfo = match self.pending_workers.remove(&worker_id) {
            Some(info) => info,
            None => {
                assert(self.pending_workers@ =~= old(self).pending_workers@);
                assert(router_views(ops@) =~= seq![]);
                return ops;
            },
        };
        self.active_workers.insert(worker_id, clone_pool(&info.default_pool));
        self.welcome(worker_id, effects);
        ops.push(RouterOp::CreateWorker { worker_id });
        ops.push(RouterOp::SetWorkerInfo { worker_id, info });
        let ghost s = self.deferred_grants@;
        let ghost pods = snapshot.pods@.dom();
        let ghost first = router_views(ops@);
        assert(first =~= seq![
            RouterOpView::CreateWorker { worker_id },
            RouterOpView::SetWorkerInfo { worker_id, info },
        ]);
        let ghost start = self.assignments@;
        let ghost from = self.next_port;
        let mut next: u64 = self.next_port;
        let mut i: usize = 0;
        assert(s.take(0) =~= Seq::<(PodId, WorkerId)>::empty());
        assert(router_views(ops@) =~= first + seq![]);
        let ghost mid = *self;
        while i < self.deferred_grants.len()
            invariant
                i <= s.len(),
                s == self.deferred_grants@,
                *self == (Namespace { assignments: self.assignments, ..mid }),
                pods == snapshot.pods@.dom(),
                from + s.len() <= u64::MAX,
                from <= next <= from + i,
                ({
                    let (a, n, o) = start.all_granted(
                        worker_id,
                        grants_for(s.take(i as int), worker_id),
                        pods,
                        from,
                    );
                    &&& self.assignments@ == a
                    &&& next == n
                    &&& router_views(ops@) == first + o
                }),
            decreases s.len() - i,
        {
            assert(s.take(i + 1).drop_last() =~= s.take(i as int));
            assert(s.take(i + 1).last() == s[i as int]);
            let g: (PodId, WorkerId) = self.deferred_grants[i];
            let ghost had = grants_for(s.take(i as int), worker_id);
            if g.1 == worker_id {
                let ghost (a, n, o) = start.all_granted(worker_id, had, pods, from);
                self.assignments.apply_grant(
                    worker_id,
                    g.0,
                    snapshot.pods.contains_key(&g.0),
                    &mut next,
                    &mut ops,
                );
                proof {
                    assert(had.push(g.0).drop_last() =~= had);
                    assert(had.push(g.0).last() == g.0);
                    if pods.contains(g.0) {
                        assert(first + (o + a.grant_ops(worker_id, g.0, n)) =~= (first + o)
                            + a.grant_ops(worker_id, g.0, n));
                    }
                }
            }
            i = i + 1;
        }
        assert(s.take(i as int) =~= s);
        self.next_port = next;
        self.drop_deferred(worker_id);
        ops
    }

    /// What a worker reports of its part in the namespace comes to.
    pub open spec fn reported<E>(
        self,
        worker_id: WorkerId,
        event: WorkerNamespaceEventKind,
        pods: Set<PodId>,
        target: Option<EndpointId>,
        e: NamespaceEffectsView<E>,
        after: Namespace,
        ops: Seq<RouterOpView>,
        f: NamespaceEffectsView<E>,
    ) -> bool {
        match event {
            WorkerNamespaceEventKind::NamespaceCreated => self.came_up(
                worker_id,
                pods,
                e,
                after,
                ops,
                f,
            ),
            WorkerNamespaceEventKind::NamespaceFailed { .. } => {
                &&& after == Namespace {
                    pending_workers: after.pending_workers,
                    deferred_grants: after.deferred_grants,
                    ..self
                }
                &&& after.pending_workers@ == self.pending_workers@.remove(worker_id)
                &&& after.deferred_grants@ == grants_off(self.deferred_grants@, worker_id)
                &&& ops == Seq::<RouterOpView>::empty()
                &&& f == e
            },
            WorkerNamespaceEventKind::EndpointDemand { signal, .. } => {
                &&& f == e
                &&& if self.active_workers@.contains_key(worker_id) && target is Some {
                    let t = target->0;
                    &&& after == Namespace {
                        endpoint_demand: after.endpoint_demand,
                        next_port: after.next_port,
                        ..self
                    }
                    &&& after.endpoint_demand@ == with_demand(
                        self.endpoint_demand@,
                        worker_id,
                        t,
                        self.next_port,
                    )
                    &&& after.next_port == next_after(
                        self.endpoint_demand@,
                        worker_id,
                        t,
                        self.next_port,
                    )
                    &&& ops == demand_views(
                        demanded(self.endpoint_demand@, worker_id, t, signal, self.next_port),
                    )
                } else {
                    &&& after == self
                    &&& ops == Seq::<RouterOpView>::empty()
                }
            },
            _ => {
                &&& f == e
                &&& after == self
                &&& ops == (if self.active_workers@.contains_key(worker_id) {
                    dispatched(event, worker_id, pods)
                } else {
                    seq![]
                })
            },
        }
    }

    /// The endpoint that a report is about.
    pub open spec fn target_of(event: WorkerNamespaceEventKind, snapshot: RouterSnapshot) -> Option<
        EndpointId,
    > {
        match event {
            WorkerNamespaceEventKind::EndpointDemand { ip, .. } => endpoint_at(
                snapshot.endpoints.seq(),
                ip,
            ),
            _ => None,
        }
    }

    /// Whether a report can be taken in: ports can be numbered, and a snapshot that is reported has a
    /// number.
    pub open spec fn can_hear(
        self,
        worker_id: WorkerId,
        event: WorkerNamespaceEventKind,
        snapshot: RouterSnapshot,
    ) -> bool {
        match event {
            WorkerNamespaceEventKind::NamespaceCreated => self.next_port
                + self.deferred_grants@.len() <= u64::MAX,
            WorkerNamespaceEventKind::EndpointDemand { .. } => self.next_port < u64::MAX,
            WorkerNamespaceEventKind::PodSuspended { pod_id, artifact_id } => {
                self.active_workers@.contains_key(worker_id) && snapshot.pods@.contains_key(pod_id)
                    ==> number(artifact_id.0@, 10, u64::MAX as nat) is Some
            },
            _ => true,
        }
    }

    /// Takes in what a worker reports.
    pub fn handle_worker_event<E>(
        &mut self,
        worker_id: WorkerId,
        event: WorkerNamespaceEventKind,
        snapshot: &RouterSnapshot,
        effects: &mut NamespaceEffects<E>,
    ) -> (r: Vec<RouterOp>)
        requires
            old(self).sound(),
            old(self).can_hear(worker_id, event, *snapshot),
        ensures
            final(self).sound(),
            old(self).reported(
                worker_id,
                event,
                snapshot.pods@.dom(),
                Self::target_of(event, *snapshot),
                old(effects)@,
                *final(self),
                router_views(r@),
                final(effects)@,
            ),
    {
        match event {
            WorkerNamespaceEventKind::NamespaceCreated => {
                self.handle_namespace_created(worker_id, snapshot, effects)
            },
            WorkerNamespaceEventKind::NamespaceFailed { .. } => {
                let _ = self.pending_workers.remove(&worker_id);
                self.drop_deferred(worker_id);
                let ops: Vec<RouterOp> = Vec::new();
                assert(router_views(ops@) =~= seq![]);
                ops
            },
            _ => {
                if !self.active_workers.contains_key(&worker_id) {
                    let ops: Vec<RouterOp> = Vec::new();
                    assert(router_views(ops@) =~= seq![]);
                    return ops;
                }
                self.dispatch_active_worker_event::<E>(
                    worker_id,
                    event,
                    snapshot,
                    Ghost(effects@),
                )
            },
        }
    }

    /// Passes on what a worker reports whose part in the namespace is up.
    fn dispatch_active_worker_event<E>(
        &mut self,
        worker_id: WorkerId,
        event: WorkerNamespaceEventKind,
        snapshot: &RouterSnapshot,
        Ghost(e): Ghost<NamespaceEffectsView<E>>,
    ) -> (r: Vec<RouterOp>)
        requires
            old(self).sound(),
            old(self).active_workers@.contains_key(worker_id),
            old(self).can_hear(worker_id, event, *snapshot),
            !(event is NamespaceCreated),
            !(event is NamespaceFailed),
        ensures
            final(self).sound(),
            old(self).reported(
                worker_id,
                event,
                snapshot.pods@.dom(),
                Self::target_of(event, *snapshot),
                e,
                *final(self),
                router_views(r@),
                e,
            ),
    {
        let mut ops: Vec<RouterOp> = Vec::new();
        let ghost pods = snapshot.pods@.dom();
        match event {
            WorkerNamespaceEventKind::PodRunning { pod_id } => {
                if snapshot.pods.contains_key(&pod_id) {
                    ops.push(
                        RouterOp::NotifyPodStatus { worker_id, pod_id, status: PodStatus::Running },
                    );
                }
            },
            WorkerNamespaceEventKind::PodExited { pod_id, exit_code } => {
                if snapshot.pods.contains_key(&pod_id) {
                    let status: PodStatus = if exit_code == 0 {
                        PodStatus::Finished
                    } else {
                        PodStatus::Failed
                    };
                    ops.push(RouterOp::NotifyPodStatus { worker_id, pod_id, status });
                }
            },
            WorkerNamespaceEventKind::PodFailed { pod_id } => {
                if snapshot.pods.contains_key(&pod_id) {
                    ops.push(
                        RouterOp::NotifyPodStatus { worker_id, pod_id, status: PodStatus::Failed },
                    );
                }
            },
            WorkerNamespaceEventKind::PodSuspendFailed { pod_id } => {
                if snapshot.pods.contains_key(&pod_id) {
                    ops.push(
                        RouterOp::NotifyPodStatus { worker_id, pod_id, status: PodStatus::Failed },
                    );
                }
            },
            WorkerNamespaceEventKind::PodSuspended { pod_id, artifact_id } => {
                if snapshot.pods.contains_key(&pod_id) {
                    let text: Vec<char> = chars_of(artifact_id.0.as_str());
                    proof {
                        assert(text@.subrange(0, text@.len() as int) =~= text@);
                    }
                    if let Some(n) = parse_number(&text, 0, text.len(), 10, u64::MAX) {
                        ops.push(
                            RouterOp::NotifyPodSuspended {
                                worker_id,
                                pod_id,
                                artifact: ArtifactPortId(n),
                            },
                        );
                    }
                }
            },
            WorkerNamespaceEventKind::EndpointDemand { ip, signal } => {
                if let Some(endpoint_id) = snapshot.find_endpoint(ip) {
                    let mut next: u64 = self.next_port;
                    let more = self.endpoint_demand.push_demand(
                        worker_id,
                        endpoint_id,
                        signal,
                        &mut next,
                    );
                    self.next_port = next;
                    push_demands(&mut ops, more);
                    assert(router_views(ops@) =~= demand_views(more@));
                }
            },
            _ => {},
        }
        proof {
            if !(event is EndpointDemand) {
                assert(router_views(ops@) =~= dispatched(event, worker_id, pods));
            } else if Self::target_of(event, *snapshot) is None {
                assert(router_views(ops@) =~= seq![]);
            }
        }
        ops
    }
}

} // verus!
