//! One namespace: its workers, its pods, and what a client asked for.
//!
//! The machines of the namespace run in a signal router outside. A namespace takes an event, and says
//! how the router is to change. What the router then delivers comes back, and is turned into commands.

use vstd::prelude::*;

use crate::adapter::dns_registry::DnsRegistryAdapter;
use crate::adapter::endpoint::EndpointAdapter;
use crate::adapter::endpoint_demand::EndpointDemandAdapter;
use crate::adapter::management::ManagementAdapter;
use crate::adapter::pod_assignment::PodAssignmentAdapter;
use crate::adapter::ports::apart;
use crate::adapter::schedule_request::ScheduleRequestAdapter;
use crate::adapter::timer::{TimerAdapter, TimerConfig};
use crate::engine::namespace::assignments::{Assignments, AssignmentsView};
use crate::ids::{NamespaceId, PoolId};
use crate::sm::{
    EndpointId, EndpointInfo, PodId, WireGuardPeerId, WorkerId, WorkerInfo, DNS_REGISTRY,
    FABRIC_ENDPOINT, SCHEDULE_REQUEST,
};
use crate::sorted_map::SortedMap;
use crate::types::NamespaceSpec;

pub mod action_laws;
pub mod assignments;
pub mod boundary;
pub mod checks;
pub mod commands;
pub mod effects;
pub mod events;
pub mod laws;
pub mod process;
pub mod report_laws;
pub mod router;
pub mod status;
pub mod unit;

verus! {

pub struct Namespace {
    pub namespace_id: NamespaceId,
    pub timer: TimerAdapter,
    pub pod_assignment: PodAssignmentAdapter,
    pub schedule_request: ScheduleRequestAdapter,
    pub management: ManagementAdapter,
    pub endpoint_demand: EndpointDemandAdapter,
    pub endpoint: EndpointAdapter,
    pub dns_registry: DnsRegistryAdapter,
    pub assignments: Assignments,
    pub current_spec: Option<NamespaceSpec>,
    /// The ports of clients, by public key.
    pub wg_peer_ports: SortedMap<[u8; 32], WireGuardPeerId>,
    /// Workers whose part in the namespace is not up yet.
    pub pending_workers: SortedMap<WorkerId, WorkerInfo>,
    /// Workers whose part in the namespace is up, with their first store.
    pub active_workers: SortedMap<WorkerId, Option<PoolId>>,
    /// Grants for workers whose part in the namespace is not up yet.
    pub deferred_grants: Vec<(PodId, WorkerId)>,
    /// The first number that no port and no lease has.
    pub next_port: u64,
    /// The number of the last snapshot.
    pub next_artifact_counter: u64,
}

/// A service that has a backend knows its address.
pub open spec fn addressed(info: EndpointInfo) -> bool {
    info.kind is Service ==> info.backend is Some ==> info.backend->0.ip is Some
}

impl Namespace {
    /// Names and ports are in order, and every known service can be told to workers.
    pub open spec fn sound(self) -> bool {
        &&& self.management.sound()
        &&& apart(self.endpoint_demand@, self.next_port)
        &&& forall|e: EndpointId| #[trigger]
            self.endpoint@.endpoints.contains_key(e) ==> addressed(self.endpoint@.endpoints[e])
    }

    /// A namespace that nothing has happened to yet.
    pub open spec fn fresh(self, namespace_id: NamespaceId, timer_config: TimerConfig) -> bool {
        &&& self.namespace_id == namespace_id
        &&& self.timer.config() == timer_config
        &&& self.timer.active().len() == 0
        &&& self.schedule_request.port() == SCHEDULE_REQUEST
        &&& self.schedule_request.sent().len() == 0
        &&& self.management.workload_seq().len() == 0
        &&& self.management.service_seq().len() == 0
        &&& self.management@.workloads.next_id == 1
        &&& self.management@.services.next_id == 1
        &&& self.endpoint_demand.seq().len() == 0
        &&& self.endpoint.port() == FABRIC_ENDPOINT
        &&& self.endpoint.endpoints().len() == 0
        &&& self.endpoint.peers().len() == 0
        &&& self.dns_registry.port() == DNS_REGISTRY
        &&& self.dns_registry.seq().len() == 0
        &&& self.assignments@ == AssignmentsView::nothing()
        &&& self.current_spec is None
        &&& self.wg_peer_ports@ == Map::<Seq<u8>, WireGuardPeerId>::empty()
        &&& self.pending_workers@ == Map::<WorkerId, WorkerInfo>::empty()
        &&& self.active_workers@ == Map::<WorkerId, Option<PoolId>>::empty()
        &&& self.deferred_grants@.len() == 0
        &&& self.next_port == 1
        &&& self.next_artifact_counter == 0
    }

    pub fn new(namespace_id: NamespaceId, timer_config: TimerConfig) -> (r: Self)
        ensures
            r.sound(),
            r.fresh(namespace_id, timer_config),
    {
        Namespace {
            namespace_id,
            timer: TimerAdapter::new(timer_config),
            pod_assignment: PodAssignmentAdapter::new(),
            schedule_request: ScheduleRequestAdapter::new(SCHEDULE_REQUEST),
            management: ManagementAdapter::new(),
            endpoint_demand: EndpointDemandAdapter::new(),
            endpoint: EndpointAdapter::new(FABRIC_ENDPOINT),
            dns_registry: DnsRegistryAdapter::new(DNS_REGISTRY),
            assignments: Assignments::new(),
            current_spec: None,
            wg_peer_ports: SortedMap::new(),
            pending_workers: SortedMap::new(),
            active_workers: SortedMap::new(),
            deferred_grants: Vec::new(),
            next_port: 1,
            next_artifact_counter: 0,
        }
    }

    /// The workers whose part in the namespace is up, in order.
    pub fn active_worker_ids(&self) -> (r: Vec<WorkerId>)
        ensures
            r@ == self.active_workers.keys(),
    {
        let n: usize = self.active_workers.len();
        let mut out: Vec<WorkerId> = Vec::new();
        let mut i: usize = 0;
        while i < n
            invariant
                i <= n,
                n == self.active_workers.seq().len(),
                n == self.active_workers.keys().len(),
                out@ == self.active_workers.keys().take(i as int),
            decreases n - i,
        {
            out.push(*self.active_workers.key_at(i));
            i = i + 1;
            assert(out@ =~= self.active_workers.keys().take(i as int));
        }
        assert(self.active_workers.keys().take(i as int) =~= self.active_workers.keys());
        out
    }

    pub fn management(&self) -> (r: &ManagementAdapter)
        ensures
            *r == self.management,
    {
        &self.management
    }

    /// What the client asked for last.
    pub fn current_spec(&self) -> (r: Option<&NamespaceSpec>)
        ensures
            match r {
                Some(s) => self.current_spec == Some(*s),
                None => self.current_spec is None,
            },
    {
        match &self.current_spec {
            Some(s) => Some(s),
            None => None,
        }
    }

    pub fn namespace_id(&self) -> (r: &NamespaceId)
        ensures
            *r == self.namespace_id,
    {
        &self.namespace_id
    }

    /// Pods have the same number everywhere.
    pub fn router_pod_to_proto(&self, router_pid: &PodId) -> (r: Option<PodId>)
        ensures
            r == Some(*router_pid),
    {
        Some(*router_pid)
    }
}

} // verus!
