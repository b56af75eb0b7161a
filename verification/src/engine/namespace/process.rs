//! The cycle of a namespace: an event changes the router, and what the router then delivers is turned
//! into commands.
use vstd::prelude::*;

use crate::adapter::dns_registry::all_renamed;
use crate::adapter::endpoint::{all_learned, learned, EndpointAction, Known};
use crate::adapter::management::{
    after_services, after_workloads, commanded, op_views, switched, ManagementOp,
};
use crate::adapter::pod_assignment::all_addressed;
use crate::adapter::schedule_request::deltas;
use crate::adapter::timer::{changes, fired, wanted, TimerIdentity};
use crate::adapter::{dns_registry, endpoint, schedule_request};
use crate::agenda::converted;
use crate::engine::namespace::commands::{feasible, ReconcileActions};
use crate::engine::namespace::effects::{NamespaceEffects, NamespaceEffectsView};
use crate::engine::namespace::events::{
    is_patched, name_set, patched, peers_added, peers_removed,
};
use crate::engine::namespace::router::{
    management_views, router_views, RouterDrain, RouterOp, RouterOpView, RouterSnapshot,
};
use crate::engine::namespace::{addressed, Namespace};
use crate::engine::types::{ClientCommand, OrchestratorToNamespace, SchedulerDecision};
use crate::namespace::wireguard::WgPeerOutput;
use crate::sm::{AdminCmd, EndpointId, WireGuardPeerEndpointInfo, WireGuardPeerId, WorkerId};
use crate::sorted_map::{as_map, increasing, lemma_len};
use crate::types::NamespaceSpec;

verus! {

impl Namespace {
    /// A spec is brought in.
    pub open spec fn respecified(
        self,
        spec: NamespaceSpec,
        after: Namespace,
        ops: Seq<RouterOpView>,
    ) -> bool {
        let old_spec = match self.current_spec {
            Some(s) => Some(&s),
            None => None,
        };
        let w = after_workloads(self.management@, self.next_port, old_spec, &spec);
        let s = after_services(self.management@, self.next_port, old_spec, &spec);
        &&& after == Namespace {
            management: after.management,
            current_spec: Some(spec),
            next_port: s.next,
            ..self
        }
        &&& after.management@.workloads == w.table
        &&& after.management@.services == s.table
        &&& ops == management_views(s.ops)
    }

    /// Whether what a spec brings in can be numbered.
    pub open spec fn can_number(self, workloads: nat, services: nat) -> bool {
        &&& self.management@.workloads.next_id + workloads <= u64::MAX
        &&& self.management@.services.next_id + services <= u64::MAX
        &&& self.next_port + workloads + services <= u64::MAX
    }

    /// What a client asks for comes to. `peers` is what the allocation of addresses says to a client
    /// that comes or goes.
    pub open spec fn obeyed(
        self,
        command: ClientCommand,
        peers: Seq<WgPeerOutput>,
        after: Namespace,
        ops: Seq<RouterOpView>,
    ) -> bool {
        match command {
            ClientCommand::UpdateSpec(spec) => self.respecified(spec, after, ops),
            ClientCommand::PatchSpec(patch) => match self.current_spec {
                Some(current) => {
                    &&& after.current_spec matches Some(spec)
                    &&& is_patched(current, patch, spec)
                    &&& self.respecified(spec, after, ops)
                },
                None => after == self && ops == Seq::<RouterOpView>::empty(),
            },
            ClientCommand::AdminRestart { workload_name } => {
                &&& after == self
                &&& ops == management_views(
                    commanded(self.management@.workloads, workload_name@, AdminCmd::Restart),
                )
            },
            ClientCommand::Scavenge { workload_name } => {
                &&& after == self
                &&& ops == management_views(
                    commanded(self.management@.workloads, workload_name@, AdminCmd::Scavenge),
                )
            },
            ClientCommand::ActivateService { service_name, active } => {
                &&& after == self
                &&& ops == management_views(
                    switched(self.management@.services, service_name@, active),
                )
            },
            ClientCommand::Connect { worker_id, .. } => {
                let (p, n, o) = peers_added(
                    self.wg_peer_ports@,
                    self.next_port,
                    worker_id,
                    peers,
                );
                &&& after == Namespace {
                    wg_peer_ports: after.wg_peer_ports,
                    next_port: n,
                    ..self
                }
                &&& after.wg_peer_ports@ == p
                &&& ops == o
            },
            ClientCommand::Disconnect { .. } => {
                let (p, o) = peers_removed(self.wg_peer_ports@, peers);
                &&& after == Namespace { wg_peer_ports: after.wg_peer_ports, ..self }
                &&& after.wg_peer_ports@ == p
                &&& ops == o
            },
        }
    }

    /// Whether what a client asks for can be numbered.
    pub open spec fn can_obey(self, command: ClientCommand, peers: Seq<WgPeerOutput>) -> bool {
        match command {
            ClientCommand::UpdateSpec(spec) => self.can_number(
                spec.workloads.seq().len(),
                spec.services.seq().len(),
            ),
            ClientCommand::PatchSpec(patch) => match self.current_spec {
                Some(c) => self.can_number(
                    c.workloads@.dom().len() + patch.workloads@.dom().len(),
                    c.services@.dom().len() + patch.services@.dom().len(),
                ),
                None => true,
            },
            ClientCommand::Connect { .. } => self.next_port + peers.len() <= u64::MAX,
            _ => true,
        }
    }

    fn push_management(ops: Vec<ManagementOp>) -> (r: Vec<RouterOp>)
        ensures
            router_views(r@) == management_views(op_views(ops@)),
    {
        let ghost all = ops@;
        let make = |op: ManagementOp| -> (r: RouterOp)
            ensures
                r == RouterOp::Management(op),
            {
                RouterOp::Management(op)
            };
        let out: Vec<RouterOp> = converted(
            ops,
            make,
            Ghost(|op: ManagementOp| RouterOp::Management(op)),
        );
        assert(router_views(out@) =~= management_views(op_views(all)));
        out
    }

    fn set_spec(&mut self, spec: NamespaceSpec) -> (r: Vec<RouterOp>)
        requires
            old(self).sound(),
            old(self).can_number(spec.workloads.seq().len(), spec.services.seq().len()),
        ensures
            final(self).sound(),
            old(self).respecified(spec, *final(self), router_views(r@)),
    {
        let mut next: u64 = self.next_port;
        let old_spec: Option<&NamespaceSpec> = match &self.current_spec {
            Some(s) => Some(s),
            None => None,
        };
        let ops: Vec<ManagementOp> = self.management.apply_namespace_spec(
            old_spec,
            &spec,
            &mut next,
        );
        self.next_port = next;
        self.current_spec = Some(spec);
        Self::push_management(ops)
    }

    fn handle_wg_connect(&mut self, worker_id: WorkerId, peers: &Vec<WgPeerOutput>) -> (r: Vec<
        RouterOp,
    >)
        requires
            old(self).sound(),
            old(self).next_port + peers@.len() <= u64::MAX,
        ensures
            final(self).sound(),
            ({
                let (p, n, o) = peers_added(
                    old(self).wg_peer_ports@,
                    old(self).next_port,
                    worker_id,
                    peers@,
                );
                &&& *final(self) == (Namespace {
                    wg_peer_ports: final(self).wg_peer_ports,
                    next_port: n,
                    ..*old(self)
                })
                &&& final(self).wg_peer_ports@ == p
                &&& router_views(r@) == o
            }),
    {
        let mut ops: Vec<RouterOp> = Vec::new();
        let ghost start = self.wg_peer_ports@;
        let ghost from = self.next_port;
        let mut i: usize = 0;
        assert(peers@.take(0) =~= Seq::<WgPeerOutput>::empty());
        assert(router_views(ops@) =~= seq![]);
        while i < peers.len()
            invariant
                i <= peers@.len(),
                start == old(self).wg_peer_ports@,
                from == old(self).next_port,
                from + peers@.len() <= u64::MAX,
                from <= self.next_port <= from + i,
                *self == (Namespace {
                    wg_peer_ports: self.wg_peer_ports,
                    next_port: self.next_port,
                    ..*old(self)
                }),
                (self.wg_peer_ports@, self.next_port, router_views(ops@)) == peers_added(
                    start,
                    from,
                    worker_id,
                    peers@.take(i as int),
                ),
            decreases peers@.len() - i,
        {
            assert(peers@.take(i + 1).drop_last() =~= peers@.take(i as int));
            assert(peers@.take(i + 1).last() == peers@[i as int]);
            match &peers[i] {
                WgPeerOutput::AddPeer { peer_public_key, peer_ip } => {
                    let peer: WireGuardPeerId = WireGuardPeerId(self.next_port);
                    self.next_port = self.next_port + 1;
                    self.wg_peer_ports.insert(*peer_public_key, peer);
                    let ghost mid = router_views(ops@);
                    let info = WireGuardPeerEndpointInfo {
                        peer_ip: *peer_ip,
                        worker_id,
                        peer_public_key: *peer_public_key,
                    };
                    ops.push(RouterOp::CreatePeer { peer, info });
                    assert(router_views(ops@) =~= mid.push(RouterOpView::CreatePeer { peer, info }));
                },
                WgPeerOutput::RemovePeer { .. } => {},
            }
            i = i + 1;
        }
        assert(peers@.take(i as int) =~= peers@);
        ops
    }

    fn handle_wg_disconnect(&mut self, peers: &Vec<WgPeerOutput>) -> (r: Vec<RouterOp>)
        requires
            old(self).sound(),
        ensures
            final(self).sound(),
            ({
                let (p, o) = peers_removed(old(self).wg_peer_ports@, peers@);
                &&& *final(self) == (Namespace {
                    wg_peer_ports: final(self).wg_peer_ports,
                    ..*old(self)
                })
                &&& final(self).wg_peer_ports@ == p
                &&& router_views(r@) == o
            }),
    {
        let mut ops: Vec<RouterOp> = Vec::new();
        let ghost start = self.wg_peer_ports@;
        let mut i: usize = 0;
        assert(peers@.take(0) =~= Seq::<WgPeerOutput>::empty());
        assert(router_views(ops@) =~= seq![]);
        while i < peers.len()
            invariant
                i <= peers@.len(),
                start == old(self).wg_peer_ports@,
                *self == (Namespace { wg_peer_ports: self.wg_peer_ports, ..*old(self) }),
                (self.wg_peer_ports@, router_views(ops@)) == peers_removed(
                    start,
                    peers@.take(i as int),
                ),
            decreases peers@.len() - i,
        {
            assert(peers@.take(i + 1).drop_last() =~= peers@.take(i as int));
            assert(peers@.take(i + 1).last() == peers@[i as int]);
            match &peers[i] {
                WgPeerOutput::RemovePeer { peer_public_key } => {
                    let ghost mid = router_views(ops@);
                    let ghost had = self.wg_peer_ports@;
                    match self.wg_peer_ports.remove(peer_public_key) {
                        Some(peer) => {
                            ops.push(RouterOp::DestroyPeer { peer });
                            assert(router_views(ops@) =~= mid.push(
                                RouterOpView::DestroyPeer { peer },
                            ));
                        },
                        None => {
                            assert(self.wg_peer_ports@ =~= had);
                        },
                    }
                },
                WgPeerOutput::AddPeer { .. } => {},
            }
            i = i + 1;
        }
        assert(peers@.take(i as int) =~= peers@);
        ops
    }

    /// Does what a client asks for.
    pub fn handle_client_command(&mut self, command: ClientCommand, peers: &Vec<WgPeerOutput>) -> (r:
        Vec<RouterOp>)
        requires
            old(self).sound(),
            old(self).can_obey(command, peers@),
        ensures
            final(self).sound(),
            old(self).obeyed(command, peers@, *final(self), router_views(r@)),
    {
        match command {
            ClientCommand::UpdateSpec(spec) => self.set_spec(spec),
            ClientCommand::PatchSpec(patch) => {
                let spec: NamespaceSpec = match &self.current_spec {
                    Some(current) => {
                        let spec: NamespaceSpec = patched(current, &patch);
                        proof {
                            use_type_invariant(&current.workloads);
                            lemma_len(current.workloads.seq());
                            use_type_invariant(&current.services);
                            lemma_len(current.services.seq());
                            use_type_invariant(&patch.workloads);
                            lemma_len(patch.workloads.seq());
                            use_type_invariant(&patch.services);
                            lemma_len(patch.services.seq());
                            use_type_invariant(&spec.workloads);
                            lemma_len(spec.workloads.seq());
                            use_type_invariant(&spec.services);
                            lemma_len(spec.services.seq());
                            lemma_patched_len(
                                current.workloads@,
                                patch.workloads@,
                                name_set(patch.remove_workloads@),
                            );
                            lemma_patched_len(
                                current.services@,
                                patch.services@,
                                name_set(patch.remove_services@),
                            );
                        }
                        spec
                    },
                    None => {
                        let ops: Vec<RouterOp> = Vec::new();
                        assert(router_views(ops@) =~= seq![]);
                        return ops;
                    },
                };
                self.set_spec(spec)
            },
            ClientCommand::AdminRestart { workload_name } => {
                let ops: Vec<ManagementOp> = self.management.send_admin_command(
                    &workload_name,
                    AdminCmd::Restart,
                );
                Self::push_management(ops)
            },
            ClientCommand::Scavenge { workload_name } => {
                let ops: Vec<ManagementOp> = self.management.send_admin_command(
                    &workload_name,
                    AdminCmd::Scavenge,
                );
                Self::push_management(ops)
            },
            ClientCommand::ActivateService { service_name, active } => {
                let ops: Vec<ManagementOp> = self.management.send_activate_service(
                    &service_name,
                    active,
                );
                Self::push_management(ops)
            },
            ClientCommand::Connect { worker_id, .. } => self.handle_wg_connect(worker_id, peers),
            ClientCommand::Disconnect { .. } => self.handle_wg_disconnect(peers),
        }
    }

    /// What an event comes to.
    pub open spec fn pushed<E>(
        self,
        event: OrchestratorToNamespace,
        snapshot: RouterSnapshot,
        peers: Seq<WgPeerOutput>,
        e: NamespaceEffectsView<E>,
        after: Namespace,
        ops: Seq<RouterOpView>,
        f: NamespaceEffectsView<E>,
    ) -> bool {
        match event {
            OrchestratorToNamespace::WorkerConnected { worker_id, info, .. } => {
                &&& after == Namespace { pending_workers: after.pending_workers, ..self }
                &&& after.pending_workers@ == self.pending_workers@.insert(worker_id, info)
                &&& ops == Seq::<RouterOpView>::empty()
                &&& f == e
            },
            OrchestratorToNamespace::WorkerDisconnected { worker_id } => {
                &&& self.departed(worker_id, after, ops)
                &&& f == e
            },
            OrchestratorToNamespace::WorkerEvent(w) => self.reported(
                w.worker_id,
                w.event,
                snapshot.pods@.dom(),
                Namespace::target_of(w.event, snapshot),
                e,
                after,
                ops,
                f,
            ),
            OrchestratorToNamespace::SchedulerDecision(decision) => match decision {
                SchedulerDecision::Grant { pod_id, worker_id, .. } => {
                    &&& self.granted(worker_id, pod_id, snapshot.pods@.dom(), after, ops)
                    &&& f == e
                },
                SchedulerDecision::Revoke { pod_id, .. } => {
                    &&& after == Namespace { assignments: after.assignments, ..self }
                    &&& after.assignments@ == self.assignments@.revoked(pod_id)
                    &&& ops == self.assignments@.revoke_ops(pod_id)
                    &&& f == e
                },
            },
            OrchestratorToNamespace::ClientCommand(command) => {
                &&& self.obeyed(command, peers, after, ops)
                &&& f == e
            },
            OrchestratorToNamespace::ArtifactInvalidated { artifact_port_id } => {
                &&& after == self
                &&& ops == seq![RouterOpView::DestroyArtifact { artifact: artifact_port_id }]
                &&& f == e
            },
        }
    }

    /// Whether an event can be taken in.
    pub open spec fn can_take(
        self,
        event: OrchestratorToNamespace,
        snapshot: RouterSnapshot,
        peers: Seq<WgPeerOutput>,
    ) -> bool {
        match event {
            OrchestratorToNamespace::WorkerEvent(w) => self.can_hear(
                w.worker_id,
                w.event,
                snapshot,
            ),
            OrchestratorToNamespace::SchedulerDecision(decision) => decision is Grant
                ==> self.next_port < u64::MAX,
            OrchestratorToNamespace::ClientCommand(command) => self.can_obey(command, peers),
            _ => true,
        }
    }

    /// Takes in an event, and says how the router is to change. What workers must hear at once goes
    /// into `effects`.
    pub fn process_event<E>(
        &mut self,
        event: OrchestratorToNamespace,
        snapshot: &RouterSnapshot,
        peers: &Vec<WgPeerOutput>,
        effects: &mut NamespaceEffects<E>,
    ) -> (r: Vec<RouterOp>)
        requires
            old(self).sound(),
            old(self).can_take(event, *snapshot, peers@),
        ensures
            final(self).sound(),
            old(self).pushed(
                event,
                *snapshot,
                peers@,
                old(effects)@,
                *final(self),
                router_views(r@),
                final(effects)@,
            ),
    {
        match event {
            OrchestratorToNamespace::WorkerConnected { worker_id, info, .. } => {
                self.pending_workers.insert(worker_id, info);
                let ops: Vec<RouterOp> = Vec::new();
                assert(router_views(ops@) =~= seq![]);
                ops
            },
            OrchestratorToNamespace::WorkerDisconnected { worker_id } => {
                self.worker_disconnected(worker_id)
            },
            OrchestratorToNamespace::WorkerEvent(w) => {
                self.handle_worker_event(w.worker_id, w.event, snapshot, effects)
            },
            OrchestratorToNamespace::SchedulerDecision(decision) => {
                match decision {
                    SchedulerDecision::Grant { pod_id, worker_id, .. } => {
                        self.scheduler_granted(worker_id, pod_id, snapshot)
                    },
                    SchedulerDecision::Revoke { pod_id, .. } => self.scheduler_revoked(pod_id),
                }
            },
            OrchestratorToNamespace::ClientCommand(command) => {
                self.handle_client_command(command, peers)
            },
            OrchestratorToNamespace::ArtifactInvalidated { artifact_port_id } => {
                let mut ops: Vec<RouterOp> = Vec::new();
                ops.push(RouterOp::DestroyArtifact { artifact: artifact_port_id });
                assert(router_views(ops@) =~= seq![
                    RouterOpView::DestroyArtifact { artifact: artifact_port_id },
                ]);
                ops
            },
        }
    }

    /// Says how the router is to change when a timer has gone off.
    pub fn fire_timer(&self, identity: &TimerIdentity) -> (r: Vec<RouterOp>)
        ensures
            router_views(r@) == seq![RouterOpView::FireTimer(fired(*identity))],
    {
        let mut ops: Vec<RouterOp> = Vec::new();
        ops.push(RouterOp::FireTimer(self.timer.fire(identity)));
        assert(router_views(ops@) =~= seq![RouterOpView::FireTimer(fired(*identity))]);
        ops
    }

    /// What the adapters make of what the router delivers.
    pub open spec fn reconciled<E>(
        self,
        drain: RouterDrain<E>,
        after: Namespace,
        actions: ReconcileActions<E>,
    ) -> bool {
        &&& after == Namespace {
            timer: after.timer,
            schedule_request: after.schedule_request,
            endpoint: after.endpoint,
            dns_registry: after.dns_registry,
            ..self
        }
        &&& after.timer.config() == self.timer.config()
        &&& as_map(after.timer.active()) == wanted(
            self.timer.config(),
            as_map(self.timer.active()),
            drain.timers@,
        )
        &&& increasing(after.timer.active())
        &&& actions.timer_actions@ == changes(self.timer.active(), after.timer.active())
        &&& after.schedule_request.port() == self.schedule_request.port()
        &&& match schedule_request::asked(
            self.schedule_request.port(),
            drain.schedule_requests@,
        ) {
            Some(next) => {
                &&& as_map(after.schedule_request.sent()) == next
                &&& increasing(after.schedule_request.sent())
                &&& actions.schedule_deltas@ == deltas(
                    self.schedule_request.sent(),
                    after.schedule_request.sent(),
                )
            },
            None => {
                &&& after.schedule_request == self.schedule_request
                &&& actions.schedule_deltas@.len() == 0
            },
        }
        &&& actions.pod_actions@ == all_addressed(drain.workers@)
        &&& after.endpoint.port() == self.endpoint.port()
        &&& actions.endpoint_actions@ == endpoint::delivered(
            self.endpoint.port(),
            drain.endpoints@,
        )
        &&& after.endpoint@ == all_learned(self.endpoint@, actions.endpoint_actions@)
        &&& after.dns_registry.port() == self.dns_registry.port()
        &&& actions.dns_registry_actions@ == dns_registry::delivered(
            self.dns_registry.port(),
            drain.names@,
        )
        &&& after.dns_registry@ == all_renamed(self.dns_registry@, actions.dns_registry_actions@)
        &&& actions.observability_events@ == drain.observability_events@
    }

    /// Takes in what the router delivers.
    pub fn reconcile<E>(&mut self, drain: RouterDrain<E>) -> (r: ReconcileActions<E>)
        requires
            old(self).sound(),
            all_addressed_in(endpoint::delivered(old(self).endpoint.port(), drain.endpoints@)),
        ensures
            final(self).sound(),
            old(self).reconciled(drain, *final(self), r),
    {
        let timer_actions = self.timer.reconcile(&drain.timers);
        let schedule_deltas = self.schedule_request.reconcile(&drain.schedule_requests);
        let (pod_actions, _) = self.pod_assignment.reconcile(&drain.workers);
        let (endpoint_actions, _) = self.endpoint.reconcile(&drain.endpoints);
        let (dns_registry_actions, _) = self.dns_registry.reconcile(&drain.names);
        proof {
            lemma_still_addressed(old(self).endpoint@, endpoint_actions@);
        }
        ReconcileActions {
            timer_actions,
            schedule_deltas,
            pod_actions,
            endpoint_actions,
            dns_registry_actions,
            observability_events: drain.observability_events,
        }
    }

    /// Whether what the router delivers can be turned into commands.
    pub open spec fn can_run<E>(self, drain: RouterDrain<E>) -> bool {
        &&& all_addressed_in(endpoint::delivered(self.endpoint.port(), drain.endpoints@))
        &&& forall|i: int|
            0 <= i < drain.workers@.len() ==> feasible(
                self.site(),
                #[trigger] all_addressed(drain.workers@)[i],
            )
        &&& self.next_artifact_counter + drain.workers@.len() <= u64::MAX
    }

    /// One round of the cycle: takes in what the router delivers, and turns it into commands.
    pub fn run_cycle<E>(&mut self, drain: RouterDrain<E>, effects: &mut NamespaceEffects<E>)
        requires
            old(self).sound(),
            old(self).can_run(drain),
        ensures
            final(self).sound(),
            exists|mid: Namespace, actions: ReconcileActions<E>|
                {
                    &&& #[trigger] old(self).reconciled(drain, mid, actions)
                    &&& (final(effects)@, final(self).next_artifact_counter) == mid.collected(
                        old(effects)@,
                        actions,
                    )
                    &&& *final(self) == Namespace {
                        next_artifact_counter: final(self).next_artifact_counter,
                        ..mid
                    }
                },
    {
        let actions: ReconcileActions<E> = self.reconcile(drain);
        assert(old(self).reconciled(drain, *self, actions));
        self.collect_effects(actions, effects);
    }
}

/// Every service that is updated with a backend knows its address.
pub open spec fn all_addressed_in(actions: Seq<EndpointAction>) -> bool {
    forall|i: int|
        0 <= i < actions.len() ==> ((#[trigger] actions[i]) matches EndpointAction::Update {
            info,
            ..
        } ==> addressed(info))
}

proof fn lemma_still_addressed(known: Known, actions: Seq<EndpointAction>)
    requires
        all_addressed_in(actions),
        forall|e: EndpointId| #[trigger]
            known.endpoints.contains_key(e) ==> addressed(known.endpoints[e]),
    ensures
        forall|e: EndpointId| #[trigger]
            all_learned(known, actions).endpoints.contains_key(e) ==> addressed(
                all_learned(known, actions).endpoints[e],
            ),
    decreases actions.len(),
{
    if actions.len() > 0 {
        let rest = actions.drop_last();
        assert forall|i: int| 0 <= i < rest.len() implies ((
        #[trigger] rest[i]) matches EndpointAction::Update { info, .. } ==> addressed(info)) by {
            assert(rest[i] == actions[i]);
        }
        lemma_still_addressed(known, rest);
        let mid = all_learned(known, rest);
        let after = all_learned(known, actions);
        assert(actions[actions.len() - 1] == actions.last());
        assert(after == learned(mid, actions.last()));
        assert forall|e: EndpointId| #[trigger] after.endpoints.contains_key(e) implies addressed(
            after.endpoints[e],
        ) by {
            if mid.endpoints.contains_key(e) {
                assert(addressed(mid.endpoints[e]));
            }
        }
    }
}

proof fn lemma_patched_len<V>(
    current: Map<Seq<char>, V>,
    patch: Map<Seq<char>, V>,
    gone: Set<Seq<char>>,
)
    requires
        current.dom().finite(),
        patch.dom().finite(),
    ensures
        current.remove_keys(gone).union_prefer_right(patch).dom().len() <= current.dom().len()
            + patch.dom().len(),
{
    let d = current.remove_keys(gone).union_prefer_right(patch).dom();
    assert(d =~= current.dom().difference(gone).union(patch.dom()));
    vstd::set_lib::lemma_len_difference(current.dom(), gone);
    vstd::set_lib::lemma_len_union(current.dom().difference(gone), patch.dom());
}

} // verus!
