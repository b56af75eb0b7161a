//! A namespace as the cluster meets it: messages, timers that went off, and reports.
use vstd::prelude::*;

use crate::adapter::management::ManagementAdapter;
use crate::adapter::timer::{fired, TimerConfig, TimerIdentity};
use crate::engine::namespace::effects::{NamespaceEffects, NamespaceEffectsView};
use crate::engine::namespace::router::{router_views, RouterOp, RouterOpView, RouterSnapshot};
use crate::engine::namespace::status::{NamespaceStatusReport, PodStatusReport, StatusView};
use crate::engine::namespace::Namespace;
use crate::engine::types::{
    ClientCommand, ClientError, OrchestratorToNamespace, SchedulerDecision, WorkerNamespaceEvent,
};
use crate::ids::NamespaceId;
use crate::namespace::wireguard::WgPeerOutput;
use crate::sm::{ArtifactPortId, PodId, WorkerId, WorkerInfo};
use crate::sorted_map::{Key, SortedMap};
use crate::types::NamespaceSpec;

verus! {

/// What happens to a namespace.
pub enum NamespaceCoreEvent {
    WorkerConnected { worker_id: WorkerId, proto_worker_id: WorkerId, info: WorkerInfo },
    WorkerDisconnected { worker_id: WorkerId },
    WorkerEvent(WorkerNamespaceEvent),
    SchedulerDecision(SchedulerDecision),
    /// A timer went off. Which start of it that was does not matter any more.
    TimerFired { identity: TimerIdentity, generation: u64 },
    ClientCommand(ClientCommand),
    ArtifactInvalidated { artifact_port_id: ArtifactPortId },
}

/// An event as a message of the cluster. Timers are the namespace's own.
pub open spec fn as_message(event: NamespaceCoreEvent) -> Option<OrchestratorToNamespace> {
    match event {
        NamespaceCoreEvent::WorkerConnected { worker_id, proto_worker_id, info } => Some(
            OrchestratorToNamespace::WorkerConnected { worker_id, proto_worker_id, info },
        ),
        NamespaceCoreEvent::WorkerDisconnected { worker_id } => Some(
            OrchestratorToNamespace::WorkerDisconnected { worker_id },
        ),
        NamespaceCoreEvent::WorkerEvent(e) => Some(OrchestratorToNamespace::WorkerEvent(e)),
        NamespaceCoreEvent::SchedulerDecision(d) => Some(
            OrchestratorToNamespace::SchedulerDecision(d),
        ),
        NamespaceCoreEvent::TimerFired { .. } => None,
        NamespaceCoreEvent::ClientCommand(c) => Some(OrchestratorToNamespace::ClientCommand(c)),
        NamespaceCoreEvent::ArtifactInvalidated { artifact_port_id } => Some(
            OrchestratorToNamespace::ArtifactInvalidated { artifact_port_id },
        ),
    }
}

/// The logic of one namespace, inside its boundary.
pub type NamespaceCore = Namespace;

/// A namespace that takes timers and messages alike.
pub struct NamespaceWithBoundary {
    pub core: NamespaceCore,
}

impl NamespaceWithBoundary {
    pub fn new(namespace_id: NamespaceId, timer_config: TimerConfig) -> (r: Self)
        ensures
            r.core.sound(),
            r.core.fresh(namespace_id, timer_config),
    {
        let core: NamespaceCore = Namespace::new(namespace_id, timer_config);
        NamespaceWithBoundary { core }
    }

    /// Around a namespace that has been set up already.
    pub fn from_core(core: NamespaceCore) -> (r: Self)
        ensures
            r.core == core,
    {
        NamespaceWithBoundary { core }
    }

    /// What an event comes to.
    pub open spec fn translated<E>(
        self,
        event: NamespaceCoreEvent,
        snapshot: RouterSnapshot,
        peers: Seq<WgPeerOutput>,
        e: NamespaceEffectsView<E>,
        after: NamespaceWithBoundary,
        ops: Seq<RouterOpView>,
        f: NamespaceEffectsView<E>,
    ) -> bool {
        match (event, as_message(event)) {
            (NamespaceCoreEvent::TimerFired { identity, .. }, _) => {
                &&& after == self
                &&& ops == seq![RouterOpView::FireTimer(fired(identity))]
                &&& f == e
            },
            (_, Some(message)) => self.core.pushed(
                message,
                snapshot,
                peers,
                e,
                after.core,
                ops,
                f,
            ),
            _ => false,
        }
    }

    /// Takes in an event, and says how the router is to change. What workers must hear at once goes
    /// into `effects`.
    pub fn process_event<E>(
        &mut self,
        event: NamespaceCoreEvent,
        snapshot: &RouterSnapshot,
        peers: &Vec<WgPeerOutput>,
        effects: &mut NamespaceEffects<E>,
    ) -> (r: Vec<RouterOp>)
        requires
            old(self).core.sound(),
            as_message(event) matches Some(m) ==> old(self).core.can_take(m, *snapshot, peers@),
        ensures
            final(self).core.sound(),
            old(self).translated(
                event,
                *snapshot,
                peers@,
                old(effects)@,
                *final(self),
                router_views(r@),
                final(effects)@,
            ),
    {
        let message: OrchestratorToNamespace = match event {
            NamespaceCoreEvent::WorkerConnected { worker_id, proto_worker_id, info } => {
                OrchestratorToNamespace::WorkerConnected { worker_id, proto_worker_id, info }
            },
            NamespaceCoreEvent::WorkerDisconnected { worker_id } => {
                OrchestratorToNamespace::WorkerDisconnected { worker_id }
            },
            NamespaceCoreEvent::WorkerEvent(e) => OrchestratorToNamespace::WorkerEvent(e),
            NamespaceCoreEvent::SchedulerDecision(d) => {
                OrchestratorToNamespace::SchedulerDecision(d)
            },
            NamespaceCoreEvent::TimerFired { identity, .. } => {
                return self.core.fire_timer(&identity);
            },
            NamespaceCoreEvent::ClientCommand(c) => OrchestratorToNamespace::ClientCommand(c),
            NamespaceCoreEvent::ArtifactInvalidated { artifact_port_id } => {
                OrchestratorToNamespace::ArtifactInvalidated { artifact_port_id }
            },
        };
        self.core.process_event(message, snapshot, peers, effects)
    }

    /// The workers whose part in the namespace is up, in order.
    pub fn active_workers(&self) -> (r: Vec<WorkerId>)
        ensures
            r@ == self.core.active_workers.keys(),
    {
        self.core.active_worker_ids()
    }

    pub fn management(&self) -> (r: &ManagementAdapter)
        ensures
            *r == self.core.management,
    {
        self.core.management()
    }

    /// What the client asked for last.
    pub fn current_spec(&self) -> (r: Option<&NamespaceSpec>)
        ensures
            match r {
                Some(s) => self.core.current_spec == Some(*s),
                None => self.core.current_spec is None,
            },
    {
        self.core.current_spec()
    }

    /// Pods have the same number everywhere.
    pub fn router_pod_to_proto(&self, router_pid: &PodId) -> (r: Option<PodId>)
        ensures
            r == Some(*router_pid),
    {
        self.core.router_pod_to_proto(router_pid)
    }
}

// ---- all namespaces ---------------------------------------------------------------------------

/// A namespace, and what its router holds.
pub struct RunningNamespace {
    pub boundary: NamespaceWithBoundary,
    pub snapshot: RouterSnapshot,
}

impl RunningNamespace {
    /// What a client learns of the namespace.
    pub open spec fn report(self) -> StatusView {
        self.boundary.core.report(self.snapshot)
    }

    pub fn status_report(&self) -> (r: NamespaceStatusReport)
        ensures
            r@ == self.report(),
    {
        self.boundary.core.status_report(&self.snapshot)
    }
}

/// The namespaces of a cluster.
pub struct NamespaceDirectory {
    pub namespaces: SortedMap<NamespaceId, RunningNamespace>,
}

impl NamespaceDirectory {
    pub fn new() -> (r: Self)
        ensures
            r.namespaces@ == Map::<Seq<char>, RunningNamespace>::empty(),
    {
        NamespaceDirectory { namespaces: SortedMap::new() }
    }

    pub fn namespace(&self, id: &NamespaceId) -> (r: Option<&NamespaceWithBoundary>)
        ensures
            match r {
                Some(n) => self.namespaces@.contains_key(id.id()) && *n
                    == self.namespaces@[id.id()].boundary,
                None => !self.namespaces@.contains_key(id.id()),
            },
    {
        match self.namespaces.get(id) {
            Some(n) => Some(&n.boundary),
            None => None,
        }
    }

    /// The report on one namespace.
    pub fn get_namespace_status(&self, namespace_id: &NamespaceId) -> (r: Result<
        NamespaceStatusReport,
        ClientError,
    >)
        ensures
            match r {
                Ok(report) => self.namespaces@.contains_key(namespace_id.id()) && report@
                    == self.namespaces@[namespace_id.id()].report(),
                Err(e) => !self.namespaces@.contains_key(namespace_id.id()) && e
                    == ClientError::NamespaceNotFound,
            },
    {
        match self.namespaces.get(namespace_id) {
            Some(n) => Ok(n.status_report()),
            None => Err(ClientError::NamespaceNotFound),
        }
    }

    /// The pods of one namespace.
    pub fn list_pods(&self, namespace_id: &NamespaceId) -> (r: Result<
        Vec<PodStatusReport>,
        ClientError,
    >)
        ensures
            match r {
                Ok(pods) => self.namespaces@.contains_key(namespace_id.id()) && pods@.map_values(
                    |p: PodStatusReport| p@,
                ) == self.namespaces@[namespace_id.id()].report().pods,
                Err(e) => !self.namespaces@.contains_key(namespace_id.id()) && e
                    == ClientError::NamespaceNotFound,
            },
    {
        match self.namespaces.get(namespace_id) {
            Some(n) => Ok(n.status_report().pods),
            None => Err(ClientError::NamespaceNotFound),
        }
    }

    /// The reports on all namespaces, in the order of their names.
    pub fn list_namespaces(&self) -> (r: Vec<NamespaceStatusReport>)
        ensures
            r@.map_values(|n: NamespaceStatusReport| n@) == self.namespaces.seq().map_values(
                |e: (NamespaceId, RunningNamespace)| e.1.report(),
            ),
    {
        let n: usize = self.namespaces.len();
        let ghost all = self.namespaces.seq().map_values(
            |e: (NamespaceId, RunningNamespace)| e.1.report(),
        );
        let mut r: Vec<NamespaceStatusReport> = Vec::new();
        let mut i: usize = 0;
        while i < n
            invariant
                n == self.namespaces.seq().len(),
                i <= n,
                all == self.namespaces.seq().map_values(
                    |e: (NamespaceId, RunningNamespace)| e.1.report(),
                ),
                r@.len() == i,
                forall|j: int| 0 <= j < i ==> (#[trigger] r@[j])@ == all[j],
            decreases n - i,
        {
            r.push(self.namespaces.value_at(i).status_report());
            i = i + 1;
        }
        assert(r@.map_values(|n: NamespaceStatusReport| n@) =~= all);
        r
    }
}

} // verus!
