//! Turns what the router delivers into commands.
use std::sync::Arc;

use vstd::prelude::*;

use crate::adapter::dns_registry::DnsRegistryAction;
use crate::adapter::endpoint::EndpointAction;
use crate::adapter::pod_assignment::PodAssignmentAction;
use crate::adapter::schedule_request::ScheduleRequestDelta;
use crate::adapter::timer::TimerAction;
use crate::engine::namespace::effects::{
    NamespaceEffects, NamespaceEffectsView, SchedulerMessageView,
};
use crate::engine::namespace::{addressed, Namespace};
use crate::engine::protocol;
use crate::engine::protocol::{
    CommandView, EndpointPlacement, EndpointPodBackend, EndpointSpec, WorkerCommand,
};
use crate::engine::types::SchedulerMessage;
use crate::ids::{ArtifactId, NamespaceId, PoolId};
use crate::sm::{
    ArtifactPortId, EndpointInfo, EndpointKind, PodId, PodSpec, WireGuardPeerEndpointInfo, WorkerId,
};
use crate::text::{decimal, decimal_text, dotted, mask_of, prefix_len_to_netmask};
use crate::types::{ContainerSpec, NamespaceSpec, PodNetworkConfig, PodNetworkView, RegistryEntry};

verus! {

/// What the adapters make of what the router delivers.
pub struct ReconcileActions<E> {
    pub timer_actions: Vec<TimerAction>,
    pub schedule_deltas: Vec<ScheduleRequestDelta>,
    pub pod_actions: Vec<PodAssignmentAction>,
    pub endpoint_actions: Vec<EndpointAction>,
    pub dns_registry_actions: Vec<DnsRegistryAction>,
    /// What observers of the namespace are to hear.
    pub observability_events: Vec<E>,
}

/// The network of a pod that has none of its own.
pub open spec fn no_network() -> PodNetworkView {
    PodNetworkView { ip: 0, mac: [0u8, 0, 0, 0, 0, 0], gateway: 0, netmask: seq![] }
}

/// The network of a pod, with the gateway and the netmask of its namespace.
pub open spec fn pod_network(spec: Option<Arc<PodSpec>>, current: Option<NamespaceSpec>) -> PodNetworkView {
    let own = match spec {
        Some(s) => match s.network {
            Some(n) => n@,
            None => no_network(),
        },
        None => no_network(),
    };
    match current {
        Some(c) => PodNetworkView {
            gateway: c.network.gateway,
            netmask: dotted(mask_of(c.network.prefix_len)),
            ..own
        },
        None => own,
    }
}

/// An endpoint as workers are told of it.
pub open spec fn endpoint_spec(info: EndpointInfo) -> EndpointSpec {
    EndpointSpec {
        ip: info.ip,
        kind: match info.kind {
            EndpointKind::Service { service_id, policy } => protocol::EndpointKind::Service {
                service_id,
                policy,
                backend: match info.backend {
                    Some(b) => Some(
                        EndpointPodBackend {
                            pod_ip: b.ip->0,
                            placement: Some(EndpointPlacement { worker_id: b.worker_id }),
                            ready: true,
                        },
                    ),
                    None => None,
                },
            },
            EndpointKind::Workload => protocol::EndpointKind::Pod {
                placement: match info.backend {
                    Some(b) => Some(EndpointPlacement { worker_id: b.worker_id }),
                    None => None,
                },
            },
        },
    }
}

/// A client's endpoint as workers are told of it.
pub open spec fn peer_spec(info: WireGuardPeerEndpointInfo) -> EndpointSpec {
    EndpointSpec {
        ip: info.peer_ip,
        kind: protocol::EndpointKind::WireGuardPeer {
            placement: Some(EndpointPlacement { worker_id: info.worker_id }),
        },
    }
}

/// A change of one endpoint.
pub open spec fn endpoint_command(namespace_id: NamespaceId, action: EndpointAction) -> CommandView {
    match action {
        EndpointAction::Update { info, .. } => CommandView::EndpointUpdate {
            namespace_id,
            upserted: seq![endpoint_spec(info)],
            removed_ips: seq![],
        },
        EndpointAction::Remove { old_info, .. } => CommandView::EndpointUpdate {
            namespace_id,
            upserted: seq![],
            removed_ips: seq![old_info.ip],
        },
        EndpointAction::WireGuardPeerUpdate { info, .. } => CommandView::EndpointUpdate {
            namespace_id,
            upserted: seq![peer_spec(info)],
            removed_ips: seq![],
        },
        EndpointAction::WireGuardPeerRemove { old_info, .. } => CommandView::EndpointUpdate {
            namespace_id,
            upserted: seq![],
            removed_ips: seq![old_info.peer_ip],
        },
    }
}

/// What a change in what the scheduler is asked for gives out.
pub open spec fn asked<E>(
    e: NamespaceEffectsView<E>,
    namespace_id: NamespaceId,
    delta: ScheduleRequestDelta,
) -> NamespaceEffectsView<E> {
    match delta {
        ScheduleRequestDelta::Request { pod_id, request } => e.messaged(
            SchedulerMessageView::RequestLease {
                namespace_id,
                pod_id,
                proto_resume_artifact: match request.resume_artifact {
                    Some(a) => Some(decimal(a.0 as nat)),
                    None => None,
                },
            },
        ),
        ScheduleRequestDelta::Drop { pod_id } => e.messaged(
            SchedulerMessageView::DropRequest { namespace_id, pod_id },
        ),
    }
}

/// What some changes in what the scheduler is asked for give out.
pub open spec fn all_asked<E>(
    e: NamespaceEffectsView<E>,
    namespace_id: NamespaceId,
    deltas: Seq<ScheduleRequestDelta>,
) -> NamespaceEffectsView<E>
    decreases deltas.len(),
{
    if deltas.len() == 0 {
        e
    } else {
        asked(all_asked(e, namespace_id, deltas.drop_last()), namespace_id, deltas.last())
    }
}

/// What a namespace needs to know to command its workers.
pub struct Site {
    pub namespace_id: NamespaceId,
    pub spec: Option<NamespaceSpec>,
    pub pools: Map<WorkerId, Option<PoolId>>,
}

/// What an action on a pod gives out, and the number of the last snapshot after it.
pub open spec fn pod_commanded<E>(
    e: NamespaceEffectsView<E>,
    counter: u64,
    site: Site,
    action: PodAssignmentAction,
) -> (NamespaceEffectsView<E>, u64) {
    let namespace_id = site.namespace_id;
    match action {
        PodAssignmentAction::Launch { worker_id, pod_id, spec, .. } => (
            e.commanded(
                worker_id,
                CommandView::LaunchPod {
                    namespace_id,
                    pod_id,
                    network: pod_network(spec, site.spec),
                    containers: match spec {
                        Some(s) => s.containers@,
                        None => seq![],
                    },
                    resources: match spec {
                        Some(s) => s.resources,
                        None => None,
                    },
                    volumes: match spec {
                        Some(s) => s.volumes@,
                        None => seq![],
                    },
                },
            ),
            counter,
        ),
        PodAssignmentAction::Resume { worker_id, pod_id, artifact_id, spec } => (
            e.commanded(
                worker_id,
                CommandView::ResumePod {
                    namespace_id,
                    pod_id,
                    artifact_id: decimal(artifact_id.0 as nat),
                    network: pod_network(spec, site.spec),
                    pool_id: site.pools[worker_id]->0,
                },
            ),
            counter,
        ),
        PodAssignmentAction::Stop { worker_id, pod_id } => (
            e.commanded(
                worker_id,
                CommandView::StopPod { namespace_id, pod_id, graceful: true },
            ),
            counter,
        ),
        PodAssignmentAction::Suspend { worker_id, pod_id } => (
            e.commanded(
                worker_id,
                CommandView::SuspendPod {
                    namespace_id,
                    pod_id,
                    artifact_id: decimal((counter + 1) as nat),
                    pool_id: site.pools[worker_id]->0,
                },
            ),
            (counter + 1) as u64,
        ),
    }
}

/// What some actions on pods give out, and the number of the last snapshot after them.
pub open spec fn pods_commanded<E>(
    e: NamespaceEffectsView<E>,
    counter: u64,
    site: Site,
    actions: Seq<PodAssignmentAction>,
) -> (NamespaceEffectsView<E>, u64)
    decreases actions.len(),
{
    if actions.len() == 0 {
        (e, counter)
    } else {
        let (f, n) = pods_commanded(e, counter, site, actions.drop_last());
        pod_commanded(f, n, site, actions.last())
    }
}

/// The network of the namespace has a netmask.
pub open spec fn has_netmask(spec: Option<NamespaceSpec>) -> bool {
    spec matches Some(c) ==> c.network.prefix_len <= 32
}

/// A worker has a store.
pub open spec fn has_store(pools: Map<WorkerId, Option<PoolId>>, worker_id: WorkerId) -> bool {
    pools.contains_key(worker_id) && pools[worker_id] is Some
}

/// Whether an action can be turned into a command: a pod that starts needs a netmask, and one that
/// is resumed or suspended a store on its worker.
pub open spec fn feasible(site: Site, action: PodAssignmentAction) -> bool {
    match action {
        PodAssignmentAction::Launch { .. } => has_netmask(site.spec),
        PodAssignmentAction::Resume { worker_id, .. } => has_netmask(site.spec) && has_store(
            site.pools,
            worker_id,
        ),
        PodAssignmentAction::Suspend { worker_id, .. } => has_store(site.pools, worker_id),
        PodAssignmentAction::Stop { .. } => true,
    }
}

/// What a change of an endpoint gives out.
pub open spec fn endpoint_told<E>(
    e: NamespaceEffectsView<E>,
    namespace_id: NamespaceId,
    action: EndpointAction,
) -> NamespaceEffectsView<E> {
    let f = e.broadcast(endpoint_command(namespace_id, action));
    match action {
        EndpointAction::WireGuardPeerUpdate { info, .. } => f.commanded(
            info.worker_id,
            CommandView::AddWireGuardPeer {
                namespace_id,
                peer_public_key: info.peer_public_key,
                peer_ip: info.peer_ip,
                preshared_key: None,
            },
        ),
        EndpointAction::WireGuardPeerRemove { old_info, .. } => f.broadcast(
            CommandView::RemoveWireGuardPeer { peer_public_key: old_info.peer_public_key },
        ),
        _ => f,
    }
}

/// What some changes of endpoints give out.
pub open spec fn endpoints_told<E>(
    e: NamespaceEffectsView<E>,
    namespace_id: NamespaceId,
    actions: Seq<EndpointAction>,
) -> NamespaceEffectsView<E>
    decreases actions.len(),
{
    if actions.len() == 0 {
        e
    } else {
        endpoint_told(
            endpoints_told(e, namespace_id, actions.drop_last()),
            namespace_id,
            actions.last(),
        )
    }
}

/// The names that are new or have moved.
pub open spec fn names_added(actions: Seq<DnsRegistryAction>) -> Seq<RegistryEntry>
    decreases actions.len(),
{
    if actions.len() == 0 {
        seq![]
    } else {
        match actions.last() {
            DnsRegistryAction::Add { name, ip } => names_added(actions.drop_last()).push(
                RegistryEntry { name, ip },
            ),
            _ => names_added(actions.drop_last()),
        }
    }
}

/// The names that are gone.
pub open spec fn names_removed(actions: Seq<DnsRegistryAction>) -> Seq<String>
    decreases actions.len(),
{
    if actions.len() == 0 {
        seq![]
    } else {
        match actions.last() {
            DnsRegistryAction::Remove { name } => names_removed(actions.drop_last()).push(name),
            _ => names_removed(actions.drop_last()),
        }
    }
}

/// What changes of names give out: one command for all of them.
pub open spec fn names_told<E>(
    e: NamespaceEffectsView<E>,
    namespace_id: NamespaceId,
    actions: Seq<DnsRegistryAction>,
) -> NamespaceEffectsView<E> {
    if actions.len() == 0 {
        e
    } else {
        e.broadcast(
            CommandView::RegistryUpdate {
                namespace_id,
                added: names_added(actions),
                removed: names_removed(actions),
            },
        )
    }
}

/// What a snapshot that is wanted, or no longer is, gives out.
#[derive(Debug, Clone, Copy, PartialEq, Eq, Structural)]
pub enum ArtifactAction {
    Referenced { port_id: ArtifactPortId },
    Released { port_id: ArtifactPortId },
}

pub open spec fn artifact_message(namespace_id: NamespaceId, action: ArtifactAction) -> SchedulerMessageView {
    match action {
        ArtifactAction::Referenced { port_id } => SchedulerMessageView::ArtifactReferenced {
            namespace_id,
            proto_artifact_id: decimal(port_id.0 as nat),
        },
        ArtifactAction::Released { port_id } => SchedulerMessageView::ArtifactReleased {
            namespace_id,
            proto_artifact_id: decimal(port_id.0 as nat),
        },
    }
}

impl Namespace {
    pub open spec fn site(self) -> Site {
        Site {
            namespace_id: self.namespace_id,
            spec: self.current_spec,
            pools: self.active_workers@,
        }
    }

    /// Whether the actions can be turned into commands: workers have the stores that are needed,
    /// snapshots can be numbered, and services know the addresses of their backends.
    pub open spec fn can_collect<E>(self, actions: ReconcileActions<E>) -> bool {
        &&& forall|i: int|
            0 <= i < actions.pod_actions@.len() ==> feasible(
                self.site(),
                #[trigger] actions.pod_actions@[i],
            )
        &&& self.next_artifact_counter + actions.pod_actions@.len() <= u64::MAX
        &&& forall|i: int|
            0 <= i < actions.endpoint_actions@.len() ==> ((
            #[trigger] actions.endpoint_actions@[i]) matches EndpointAction::Update { info, .. }
                ==> addressed(info))
    }

    /// What the actions give out.
    pub open spec fn collected<E>(self, e: NamespaceEffectsView<E>, actions: ReconcileActions<E>) -> (
        NamespaceEffectsView<E>,
        u64,
    ) {
        let timed = NamespaceEffectsView {
            timer_actions: e.timer_actions + actions.timer_actions@,
            observability_events: e.observability_events + actions.observability_events@,
            ..e
        };
        let (f, counter) = pods_commanded(
            all_asked(timed, self.namespace_id, actions.schedule_deltas@),
            self.next_artifact_counter,
            self.site(),
            actions.pod_actions@,
        );
        (
            names_told(
                endpoints_told(f, self.namespace_id, actions.endpoint_actions@),
                self.namespace_id,
                actions.dns_registry_actions@,
            ),
            counter,
        )
    }

    /// The network of a pod, with the gateway and the netmask of the namespace.
    fn network_for(&self, spec: &Option<Arc<PodSpec>>) -> (r: PodNetworkConfig)
        requires
            has_netmask(self.current_spec),
        ensures
            r@ == pod_network(*spec, self.current_spec),
    {
        let own: Option<PodNetworkConfig> = match spec {
            Some(s) => match &s.network {
                Some(n) => Some(n.clone()),
                None => None,
            },
            None => None,
        };
        let mut network: PodNetworkConfig = match own {
            Some(n) => n,
            None => {
                let n = PodNetworkConfig { ip: 0, mac: [0u8, 0, 0, 0, 0, 0], gateway: 0, netmask: String::new() };
                assert(n.netmask@ =~= seq![]);
                n
            },
        };
        if let Some(c) = &self.current_spec {
            network.gateway = c.network.gateway;
            network.netmask = prefix_len_to_netmask(c.network.prefix_len);
        }
        network
    }

    /// The first store of a worker.
    fn store_of(&self, worker_id: WorkerId) -> (r: PoolId)
        requires
            has_store(self.active_workers@, worker_id),
        ensures
            r == self.active_workers@[worker_id]->0,
    {
        match self.active_workers.get(&worker_id) {
            Some(Some(p)) => p.clone(),
            _ => {
                proof {
                    assert(false);
                }
                PoolId(String::new())
            },
        }
    }

    /// The command that launches a pod.
    fn build_launch_command(&self, pod_id: PodId, spec: &Option<Arc<PodSpec>>) -> (r: WorkerCommand)
        requires
            has_netmask(self.current_spec),
        ensures
            r@ == (CommandView::LaunchPod {
                namespace_id: self.namespace_id,
                pod_id,
                network: pod_network(*spec, self.current_spec),
                containers: match *spec {
                    Some(s) => s.containers@,
                    None => seq![],
                },
                resources: match *spec {
                    Some(s) => s.resources,
                    None => None,
                },
                volumes: match *spec {
                    Some(s) => s.volumes@,
                    None => seq![],
                },
            }),
    {
        let network: PodNetworkConfig = self.network_for(spec);
        match spec {
            Some(s) => WorkerCommand::LaunchPod {
                namespace_id: self.namespace_id.clone(),
                pod_id,
                network,
                containers: s.containers.clone(),
                resources: s.resources,
                volumes: s.volumes.clone(),
            },
            None => {
                let containers: Vec<ContainerSpec> = Vec::new();
                let volumes: Vec<String> = Vec::new();
                assert(containers@ =~= seq![]);
                assert(volumes@ =~= seq![]);
                WorkerCommand::LaunchPod {
                    namespace_id: self.namespace_id.clone(),
                    pod_id,
                    network,
                    containers: Arc::new(containers),
                    resources: None,
                    volumes: Arc::new(volumes),
                }
            },
        }
    }

    /// The command that resumes a pod from a snapshot.
    fn build_resume_command(
        &self,
        worker_id: WorkerId,
        pod_id: PodId,
        artifact_id: ArtifactPortId,
        spec: &Option<Arc<PodSpec>>,
    ) -> (r: WorkerCommand)
        requires
            has_netmask(self.current_spec),
            has_store(self.active_workers@, worker_id),
        ensures
            r@ == (CommandView::ResumePod {
                namespace_id: self.namespace_id,
                pod_id,
                artifact_id: decimal(artifact_id.0 as nat),
                network: pod_network(*spec, self.current_spec),
                pool_id: self.active_workers@[worker_id]->0,
            }),
    {
        WorkerCommand::ResumePod {
            namespace_id: self.namespace_id.clone(),
            pod_id,
            artifact_id: ArtifactId(decimal_text(artifact_id.0)),
            network: self.network_for(spec),
            pool_id: self.store_of(worker_id),
        }
    }

    /// An endpoint as workers are told of it.
    pub fn build_endpoint_spec_from_info(info: &EndpointInfo) -> (r: EndpointSpec)
        requires
            addressed(*info),
        ensures
            r == endpoint_spec(*info),
    {
        let kind: protocol::EndpointKind = match &info.kind {
            EndpointKind::Service { service_id, policy } => protocol::EndpointKind::Service {
                service_id: *service_id,
                policy: policy.clone(),
                backend: match info.backend {
                    Some(b) => Some(
                        EndpointPodBackend {
                            pod_ip: match b.ip {
                                Some(ip) => ip,
                                None => 0,
                            },
                            placement: Some(EndpointPlacement { worker_id: b.worker_id }),
                            ready: true,
                        },
                    ),
                    None => None,
                },
            },
            EndpointKind::Workload => protocol::EndpointKind::Pod {
                placement: match info.backend {
                    Some(b) => Some(EndpointPlacement { worker_id: b.worker_id }),
                    None => None,
                },
            },
        };
        EndpointSpec { ip: info.ip, kind }
    }

    /// A client's endpoint as workers are told of it.
    pub fn build_peer_spec(info: &WireGuardPeerEndpointInfo) -> (r: EndpointSpec)
        ensures
            r == peer_spec(*info),
    {
        EndpointSpec {
            ip: info.peer_ip,
            kind: protocol::EndpointKind::WireGuardPeer {
                placement: Some(EndpointPlacement { worker_id: info.worker_id }),
            },
        }
    }

    /// The command for a change of one endpoint.
    fn build_endpoint_command(&self, action: &EndpointAction) -> (r: WorkerCommand)
        requires
            *action matches EndpointAction::Update { info, .. } ==> addressed(info),
        ensures
            r@ == endpoint_command(self.namespace_id, *action),
    {
        let mut upserted: Vec<EndpointSpec> = Vec::new();
        let mut removed_ips: Vec<u32> = Vec::new();
        match action {
            EndpointAction::Update { info, .. } => {
                upserted.push(Self::build_endpoint_spec_from_info(info));
            },
            EndpointAction::Remove { old_info, .. } => {
                removed_ips.push(old_info.ip);
            },
            EndpointAction::WireGuardPeerUpdate { info, .. } => {
                upserted.push(Self::build_peer_spec(info));
            },
            EndpointAction::WireGuardPeerRemove { old_info, .. } => {
                removed_ips.push(old_info.peer_ip);
            },
        }
        let r = WorkerCommand::EndpointUpdate {
            namespace_id: self.namespace_id.clone(),
            upserted,
            removed_ips,
        };
        assert(r@ =~= endpoint_command(self.namespace_id, *action));
        r
    }

    /// The number of a new snapshot.
    fn alloc_artifact_id(&mut self) -> (r: ArtifactPortId)
        requires
            old(self).next_artifact_counter < u64::MAX,
        ensures
            r.0 == old(self).next_artifact_counter + 1,
            *final(self) == (Namespace { next_artifact_counter: r.0, ..*old(self) }),
    {
        self.next_artifact_counter = self.next_artifact_counter + 1;
        ArtifactPortId(self.next_artifact_counter)
    }

    /// Turns what the adapters say into messages and commands.
    pub fn collect_effects<E>(&mut self, actions: ReconcileActions<E>, effects: &mut NamespaceEffects<E>)
        requires
            old(self).can_collect(actions),
        ensures
            (final(effects)@, final(self).next_artifact_counter) == old(self).collected(
                old(effects)@,
                actions,
            ),
            *final(self) == (Namespace {
                next_artifact_counter: final(self).next_artifact_counter,
                ..*old(self)
            }),
    {
        let ghost timed = NamespaceEffectsView {
            timer_actions: effects@.timer_actions + actions.timer_actions@,
            observability_events: effects@.observability_events + actions.observability_events@,
            ..effects@
        };
        effects.time(actions.timer_actions);
        effects.observe(actions.observability_events);
        let deltas: Vec<ScheduleRequestDelta> = actions.schedule_deltas;
        let mut i: usize = 0;
        assert(deltas@.take(0) =~= Seq::<ScheduleRequestDelta>::empty());
        while i < deltas.len()
            invariant
                i <= deltas@.len(),
                *self == *old(self),
                effects@ == all_asked(timed, self.namespace_id, deltas@.take(i as int)),
            decreases deltas@.len() - i,
        {
            assert(deltas@.take(i + 1).drop_last() =~= deltas@.take(i as int));
            assert(deltas@.take(i + 1).last() == deltas@[i as int]);
            let message: SchedulerMessage = match &deltas[i] {
                ScheduleRequestDelta::Request { pod_id, request } => SchedulerMessage::RequestLease {
                    namespace_id: self.namespace_id.clone(),
                    pod_id: *pod_id,
                    proto_resume_artifact: match request.resume_artifact {
                        Some(a) => Some(ArtifactId(decimal_text(a.0))),
                        None => None,
                    },
                },
                ScheduleRequestDelta::Drop { pod_id } => SchedulerMessage::DropRequest {
                    namespace_id: self.namespace_id.clone(),
                    pod_id: *pod_id,
                },
            };
            effects.message(message);
            i = i + 1;
        }
        assert(deltas@.take(i as int) =~= deltas@);
        self.command_pods(&actions.pod_actions, effects);
        self.tell_endpoints(&actions.endpoint_actions, effects);
        self.tell_names(&actions.dns_registry_actions, effects);
    }

    fn command_pods<E>(&mut self, actions: &Vec<PodAssignmentAction>, effects: &mut NamespaceEffects<E>)
        requires
            forall|i: int|
                0 <= i < actions@.len() ==> feasible(old(self).site(), #[trigger] actions@[i]),
            old(self).next_artifact_counter + actions@.len() <= u64::MAX,
        ensures
            (final(effects)@, final(self).next_artifact_counter) == pods_commanded(
                old(effects)@,
                old(self).next_artifact_counter,
                old(self).site(),
                actions@,
            ),
            *final(self) == (Namespace {
                next_artifact_counter: final(self).next_artifact_counter,
                ..*old(self)
            }),
    {
        let ghost start = effects@;
        let ghost count = self.next_artifact_counter;
        let mut i: usize = 0;
        assert(actions@.take(0) =~= Seq::<PodAssignmentAction>::empty());
        while i < actions.len()
            invariant
                i <= actions@.len(),
                count == old(self).next_artifact_counter,
                count + actions@.len() <= u64::MAX,
                self.next_artifact_counter <= count + i,
                forall|j: int|
                    0 <= j < actions@.len() ==> feasible(
                        old(self).site(),
                        #[trigger] actions@[j],
                    ),
                *self == (Namespace {
                    next_artifact_counter: self.next_artifact_counter,
                    ..*old(self)
                }),
                (effects@, self.next_artifact_counter) == pods_commanded(
                    start,
                    count,
                    old(self).site(),
                    actions@.take(i as int),
                ),
            decreases actions@.len() - i,
        {
            assert(actions@.take(i + 1).drop_last() =~= actions@.take(i as int));
            assert(actions@.take(i + 1).last() == actions@[i as int]);
            assert(feasible(old(self).site(), actions@[i as int]));
            match &actions[i] {
                PodAssignmentAction::Launch { worker_id, pod_id, spec, .. } => {
                    let command: WorkerCommand = self.build_launch_command(*pod_id, spec);
                    effects.command(*worker_id, command);
                },
                PodAssignmentAction::Resume { worker_id, pod_id, artifact_id, spec } => {
                    let command: WorkerCommand = self.build_resume_command(
                        *worker_id,
                        *pod_id,
                        *artifact_id,
                        spec,
                    );
                    effects.command(*worker_id, command);
                },
                PodAssignmentAction::Stop { worker_id, pod_id } => {
                    effects.command(
                        *worker_id,
                        WorkerCommand::StopPod {
                            namespace_id: self.namespace_id.clone(),
                            pod_id: *pod_id,
                            graceful: true,
                        },
                    );
                },
                PodAssignmentAction::Suspend { worker_id, pod_id } => {
                    let pool_id: PoolId = self.store_of(*worker_id);
                    let artifact: ArtifactPortId = self.alloc_artifact_id();
                    effects.command(
                        *worker_id,
                        WorkerCommand::SuspendPod {
                            namespace_id: self.namespace_id.clone(),
                            pod_id: *pod_id,
                            artifact_id: ArtifactId(decimal_text(artifact.0)),
                            pool_id,
                        },
                    );
                },
            }
            i = i + 1;
        }
        assert(actions@.take(i as int) =~= actions@);
    }

    fn tell_endpoints<E>(&self, actions: &Vec<EndpointAction>, effects: &mut NamespaceEffects<E>)
        requires
            forall|i: int|
                0 <= i < actions@.len() ==> ((
                #[trigger] actions@[i]) matches EndpointAction::Update { info, .. } ==> addressed(
                    info,
                )),
        ensures
            final(effects)@ == endpoints_told(old(effects)@, self.namespace_id, actions@),
    {
        let ghost start = effects@;
        let mut i: usize = 0;
        assert(actions@.take(0) =~= Seq::<EndpointAction>::empty());
        while i < actions.len()
            invariant
                i <= actions@.len(),
                forall|j: int|
                    0 <= j < actions@.len() ==> ((
                    #[trigger] actions@[j]) matches EndpointAction::Update { info, .. }
                        ==> addressed(info)),
                effects@ == endpoints_told(start, self.namespace_id, actions@.take(i as int)),
            decreases actions@.len() - i,
        {
            assert(actions@.take(i + 1).drop_last() =~= actions@.take(i as int));
            assert(actions@.take(i + 1).last() == actions@[i as int]);
            let action: &EndpointAction = &actions[i];
            let command: WorkerCommand = self.build_endpoint_command(action);
            effects.broadcast(command);
            match action {
                EndpointAction::WireGuardPeerUpdate { info, .. } => {
                    effects.command(
                        info.worker_id,
                        WorkerCommand::AddWireGuardPeer {
                            namespace_id: self.namespace_id.clone(),
                            peer_public_key: info.peer_public_key,
                            peer_ip: info.peer_ip,
                            preshared_key: None,
                        },
                    );
                },
                EndpointAction::WireGuardPeerRemove { old_info, .. } => {
                    effects.broadcast(
                        WorkerCommand::RemoveWireGuardPeer {
                            peer_public_key: old_info.peer_public_key,
                        },
                    );
                },
                _ => {},
            }
            i = i + 1;
        }
        assert(actions@.take(i as int) =~= actions@);
    }

    fn tell_names<E>(&self, actions: &Vec<DnsRegistryAction>, effects: &mut NamespaceEffects<E>)
        ensures
            final(effects)@ == names_told(old(effects)@, self.namespace_id, actions@),
    {
        if actions.len() == 0 {
            return;
        }
        let mut added: Vec<RegistryEntry> = Vec::new();
        let mut removed: Vec<String> = Vec::new();
        let mut i: usize = 0;
        assert(actions@.take(0) =~= Seq::<DnsRegistryAction>::empty());
        while i < actions.len()
            invariant
                i <= actions@.len(),
                added@ == names_added(actions@.take(i as int)),
                removed@ == names_removed(actions@.take(i as int)),
            decreases actions@.len() - i,
        {
            assert(actions@.take(i + 1).drop_last() =~= actions@.take(i as int));
            assert(actions@.take(i + 1).last() == actions@[i as int]);
            match &actions[i] {
                DnsRegistryAction::Add { name, ip } => {
                    added.push(RegistryEntry { name: name.clone(), ip: *ip });
                },
                DnsRegistryAction::Remove { name } => {
                    removed.push(name.clone());
                },
            }
            i = i + 1;
        }
        assert(actions@.take(i as int) =~= actions@);
        effects.broadcast(
            WorkerCommand::RegistryUpdate {
                namespace_id: self.namespace_id.clone(),
                added,
                removed,
            },
        );
    }

    /// Tells the scheduler which snapshots are wanted, and which no longer are.
    pub fn finish_cycle<E>(&self, actions: &Vec<ArtifactAction>, effects: &mut NamespaceEffects<E>)
        ensures
            final(effects)@ == (NamespaceEffectsView {
                scheduler_messages: old(effects)@.scheduler_messages + actions@.map_values(
                    |a: ArtifactAction| artifact_message(self.namespace_id, a),
                ),
                ..old(effects)@
            }),
    {
        let ghost start = effects@;
        let ghost f = |a: ArtifactAction| artifact_message(self.namespace_id, a);
        let mut i: usize = 0;
        assert(start.scheduler_messages + actions@.take(0).map_values(f)
            =~= start.scheduler_messages);
        while i < actions.len()
            invariant
                i <= actions@.len(),
                f == (|a: ArtifactAction| artifact_message(self.namespace_id, a)),
                effects@ == (NamespaceEffectsView {
                    scheduler_messages: start.scheduler_messages + actions@.take(
                        i as int,
                    ).map_values(f),
                    ..start
                }),
            decreases actions@.len() - i,
        {
            let message: SchedulerMessage = match &actions[i] {
                ArtifactAction::Referenced { port_id } => SchedulerMessage::ArtifactReferenced {
                    namespace_id: self.namespace_id.clone(),
                    proto_artifact_id: ArtifactId(decimal_text(port_id.0)),
                },
                ArtifactAction::Released { port_id } => SchedulerMessage::ArtifactReleased {
                    namespace_id: self.namespace_id.clone(),
                    proto_artifact_id: ArtifactId(decimal_text(port_id.0)),
                },
            };
            effects.message(message);
            i = i + 1;
            assert(start.scheduler_messages + actions@.take(i as int).map_values(f)
                =~= (start.scheduler_messages + actions@.take(i - 1).map_values(f)).push(
                f(actions@[i - 1]),
            ));
        }
        assert(actions@.take(i as int) =~= actions@);
    }
}

} // verus!
