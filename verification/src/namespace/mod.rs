//! One namespace: its workloads, services, pods and workers.
//!
//! The lifecycle machines of the workloads and the allocation of WireGuard addresses work outside
//! of this module. A handler names what it needs from them as [`FollowUp`]s, in order; the results
//! come back through `workload_stepped`, `peer_connected` and `peer_disconnected`.
use vstd::prelude::*;

use crate::broadcast::{send_to_active_workers, send_to_worker, targets, to_each};
use crate::ids::{ClientId, NamespaceId, PodId, ServiceId, WorkerId, WorkloadId};
use crate::output::NamespaceOutput;
use crate::pod_map::{PodInfo, PodMap};
use crate::service::{ServiceState, ServiceStateMachine};
use crate::sorted_map::{Key, SortedMap};
use crate::types::{
    CommandView, EndpointKind, EndpointPlacement, EndpointPodBackend, EndpointSpec,
    FabricRouteEntry, FabricStatus, NamespaceSpec, NamespaceStatus, NamespaceWorkerState,
    RegistryEntry, ServiceSpec, WorkerCommand, WorkloadSpec,
};
use crate::workload::{Workload, WorkloadInput, WorkloadReadyInfo, WorkloadState};

pub mod command_laws;
pub mod commands;
pub mod effect_laws;
pub mod effects;
pub mod event_laws;
pub mod events;
pub mod laws;
pub mod picture_laws;
pub mod reconciliation;
pub mod settle;
pub mod status;
pub mod step;
pub mod wireguard;

verus! {

/// What a service waits before it sleeps, where its spec does not say.
pub const DEFAULT_IDLE_TIMEOUT_MS: u64 = 30_000;

/// A client on the namespace's network.
#[derive(Debug, Clone, Copy, PartialEq, Eq)]
pub struct WgPeer {
    pub public_key: [u8; 32],
    pub client_ip: u32,
}

/// What is still to be done for an input, in order.
#[derive(Debug, PartialEq, Eq)]
pub enum FollowUp {
    /// Step a workload's lifecycle machine. `retry` marks the answer to a suspension that could not
    /// start.
    StepWorkload { workload_id: WorkloadId, input: WorkloadInput, retry: bool },
    /// Compare a workload's demand with what its services want.
    ReconcileDemand { workload_id: WorkloadId },
    /// Tell a workload's services whether it is ready.
    ReconcileReadiness { workload_id: WorkloadId },
    /// Take a lost worker off the list.
    DropWorker { worker_id: WorkerId },
    /// Allocate an address for a client.
    ConnectPeer {
        client_id: ClientId,
        client_public_key: [u8; 32],
        worker_wg_public_key: [u8; 32],
        worker_endpoint: String,
    },
    /// Give a client's address back.
    DisconnectPeer { client_id: ClientId, client_public_key: [u8; 32] },
}

/// One namespace.
pub struct NamespaceStateMachine {
    pub namespace_id: NamespaceId,
    pub spec: NamespaceSpec,
    pub status: NamespaceStatus,
    pub segment_id: u16,
    pub workloads: SortedMap<WorkloadId, Workload>,
    pub services: SortedMap<ServiceId, ServiceStateMachine>,
    pub service_workload: SortedMap<ServiceId, WorkloadId>,
    pub pod_map: PodMap,
    pub workers: SortedMap<WorkerId, NamespaceWorkerState>,
    /// The clients that hold an address.
    pub wg_peers: Vec<WgPeer>,
    /// The workloads that are ready, and the pod that serves each.
    pub workload_readiness: SortedMap<WorkloadId, WorkloadReadyInfo>,
    /// The workloads that network flows are open to.
    pub active_flows: SortedMap<WorkloadId, ()>,
}

/// A workload that has not started, as its spec asks for it.
pub open spec fn fresh_workload(w: Workload, spec: WorkloadSpec) -> bool {
    &&& w.status.state == WorkloadState::Dormant
    &&& w.status.current_demand == 0
    &&& w.status.retiring@.len() == 0
    &&& w.suspend_on_idle == spec.suspend_on_idle
    &&& w.conditions.seq().len() == 0
}

/// The idle timeout that a service spec asks for.
pub open spec fn idle_timeout_of(spec: ServiceSpec) -> u64 {
    match spec.activation {
        Some(a) => a.idle_timeout_ms,
        None => DEFAULT_IDLE_TIMEOUT_MS,
    }
}

/// A service that has not started, as its spec asks for it.
pub open spec fn fresh_service(s: ServiceStateMachine, id: ServiceId, spec: ServiceSpec) -> bool {
    &&& s.service_id == id
    &&& s.state == ServiceState::Pending
    &&& s.workload_id == spec.workload_id
    &&& s.has_activation == spec.activation is Some
    &&& s.idle_timeout_ms == idle_timeout_of(spec)
    &&& s.conditions@ == Map::<Seq<char>, String>::empty()
}

fn new_service(id: &ServiceId, spec: &ServiceSpec) -> (r: ServiceStateMachine)
    ensures
        fresh_service(r, *id, *spec),
{
    let idle_timeout_ms: u64 = match &spec.activation {
        Some(a) => a.idle_timeout_ms,
        None => DEFAULT_IDLE_TIMEOUT_MS,
    };
    ServiceStateMachine::new(
        id.clone(),
        spec.workload_id.clone(),
        spec.activation.is_some(),
        idle_timeout_ms,
    )
}

/// The worker of the first pod of a workload, in pod order.
pub open spec fn placement_of(pods: Seq<(PodId, PodInfo)>, workload: Seq<char>) -> Option<
    EndpointPlacement,
>
    decreases pods.len(),
{
    if pods.len() == 0 {
        None
    } else if pods[0].1.workload_id.id() == workload {
        Some(EndpointPlacement { worker_id: pods[0].1.worker_id })
    } else {
        placement_of(pods.drop_first(), workload)
    }
}

/// The routes to the pods that run elsewhere than on `target`.
pub open spec fn routes_for(
    pods: Seq<(PodId, PodInfo)>,
    workloads: Map<Seq<char>, WorkloadSpec>,
    target: Seq<char>,
) -> Seq<FabricRouteEntry>
    decreases pods.len(),
{
    if pods.len() == 0 {
        seq![]
    } else {
        let rest = routes_for(pods.drop_last(), workloads, target);
        let info = pods.last().1;
        if info.worker_id.id() != target && workloads.contains_key(info.workload_id.id()) {
            rest.push(
                FabricRouteEntry {
                    ip: workloads[info.workload_id.id()].network.ip,
                    remote_worker: info.worker_id,
                },
            )
        } else {
            rest
        }
    }
}

/// The names of the services and their addresses.
pub open spec fn registry_of(services: Seq<(ServiceId, ServiceSpec)>) -> Seq<RegistryEntry> {
    Seq::new(services.len(), |i: int| RegistryEntry { name: services[i].0.0, ip: services[i].1.ip })
}

/// A demand check for each workload, in order.
pub open spec fn demand_checks(workloads: Seq<(WorkloadId, Workload)>) -> Seq<FollowUp> {
    Seq::new(
        workloads.len(),
        |i: int| FollowUp::ReconcileDemand { workload_id: workloads[i].0 },
    )
}

impl NamespaceStateMachine {
    /// A namespace that has not started, as its spec asks for it.
    pub open spec fn fresh(self, namespace_id: NamespaceId, spec: NamespaceSpec, segment_id: u16) -> bool {
        &&& self.namespace_id == namespace_id
        &&& self.spec == spec
        &&& self.status == NamespaceStatus::Creating
        &&& self.segment_id == segment_id
        &&& self.workloads@.dom() == spec.workloads@.dom()
        &&& forall|w: Seq<char>| #[trigger]
            self.workloads@.contains_key(w) ==> fresh_workload(self.workloads@[w], spec.workloads@[w])
        &&& self.services@.dom() == spec.services@.dom()
        &&& forall|s: Seq<char>| #[trigger]
            self.services@.contains_key(s) ==> self.services@[s].service_id.id() == s
                && fresh_service(self.services@[s], self.services@[s].service_id, spec.services@[s])
        &&& self.service_workload@.dom() == spec.services@.dom()
        &&& forall|s: Seq<char>| #[trigger]
            self.service_workload@.contains_key(s) ==> self.service_workload@[s]
                == spec.services@[s].workload_id
        &&& self.pod_map@ == Map::<Seq<char>, PodInfo>::empty()
        &&& self.workers@ == Map::<Seq<char>, NamespaceWorkerState>::empty()
        &&& self.wg_peers@.len() == 0
        &&& self.workload_readiness@ == Map::<Seq<char>, WorkloadReadyInfo>::empty()
        &&& self.active_flows@ == Map::<Seq<char>, ()>::empty()
    }

    pub fn new(namespace_id: NamespaceId, spec: NamespaceSpec, segment_id: u16) -> (r: Self)
        ensures
            r.fresh(namespace_id, spec, segment_id),
    {
        let make_workload = |_id: &WorkloadId, w: &WorkloadSpec| -> (r: Workload)
            ensures
                fresh_workload(r, *w),
            {
                Workload::new(w.suspend_on_idle)
            };
        let make_service = |id: &ServiceId, s: &ServiceSpec| -> (r: ServiceStateMachine)
            ensures
                fresh_service(r, *id, *s),
            {
                new_service(id, s)
            };
        let make_link = |_id: &ServiceId, s: &ServiceSpec| -> (r: WorkloadId)
            ensures
                r == s.workload_id,
            {
                s.workload_id.clone()
            };
        let workloads = spec.workloads.map_to(make_workload);
        let services = spec.services.map_to(make_service);
        let service_workload = spec.services.map_to(make_link);
        NamespaceStateMachine {
            namespace_id,
            spec,
            status: NamespaceStatus::Creating,
            segment_id,
            workloads,
            services,
            service_workload,
            pod_map: PodMap::new(),
            workers: SortedMap::new(),
            wg_peers: Vec::new(),
            workload_readiness: SortedMap::new(),
            active_flows: SortedMap::new(),
        }
    }

    /// The workers whose fabric is up, in name order.
    pub fn active_worker_ids(&self) -> (r: Vec<WorkerId>)
        ensures
            r@ == targets(self.workers.seq(), None),
    {
        let n: usize = self.workers.len();
        let mut r: Vec<WorkerId> = Vec::new();
        let mut i: usize = 0;
        let ghost s = self.workers.seq();
        proof {
            assert(s.take(0) =~= Seq::<(WorkerId, NamespaceWorkerState)>::empty());
        }
        while i < n
            invariant
                n == s.len(),
                s == self.workers.seq(),
                i <= n,
                r@ == targets(s.take(i as int), None),
            decreases n - i,
        {
            proof {
                assert(s.take(i + 1).drop_last() =~= s.take(i as int));
                assert(s.take(i + 1).last() == s[i as int]);
            }
            if self.workers.value_at(i).fabric_status == FabricStatus::Active {
                r.push(self.workers.key_at(i).clone());
            }
            i = i + 1;
        }
        proof {
            assert(s.take(n as int) =~= s);
        }
        r
    }

    /// The names of the services and their addresses.
    pub fn build_registry_entries(&self) -> (r: Vec<RegistryEntry>)
        ensures
            r@ == registry_of(self.spec.services.seq()),
    {
        let n: usize = self.spec.services.len();
        let mut r: Vec<RegistryEntry> = Vec::new();
        let mut i: usize = 0;
        while i < n
            invariant
                n == self.spec.services.seq().len(),
                i <= n,
                r@.len() == i,
                forall|j: int|
                    0 <= j < i ==> #[trigger] r@[j] == registry_of(self.spec.services.seq())[j],
            decreases n - i,
        {
            let id: &ServiceId = self.spec.services.key_at(i);
            r.push(RegistryEntry { name: id.0.clone(), ip: self.spec.services.value_at(i).ip });
            i = i + 1;
        }
        assert(r@ =~= registry_of(self.spec.services.seq()));
        r
    }

    /// Where a workload's pod runs.
    pub fn find_placement(&self, workload_id: &WorkloadId) -> (r: Option<EndpointPlacement>)
        ensures
            r == placement_of(self.pod_map.seq(), workload_id.id()),
    {
        let pods: Vec<(&PodId, &PodInfo)> = self.pod_map.iter();
        let ghost s = self.pod_map.seq();
        let ghost w = workload_id.id();
        let mut i: usize = 0;
        proof {
            assert(s.skip(0) =~= s);
        }
        while i < pods.len()
            invariant
                i <= pods@.len(),
                pods@.len() == s.len(),
                s == self.pod_map.seq(),
                w == workload_id.id(),
                forall|j: int| 0 <= j < s.len() ==> *(#[trigger] pods@[j]).1 == s[j].1,
                placement_of(s, w) == placement_of(s.skip(i as int), w),
            decreases pods@.len() - i,
        {
            proof {
                assert(s.skip(i as int).drop_first() =~= s.skip(i + 1));
                assert(s.skip(i as int)[0] == s[i as int]);
            }
            let info: &PodInfo = pods[i].1;
            if info.workload_id.same(workload_id) {
                return Some(EndpointPlacement { worker_id: info.worker_id.clone() });
            }
            i = i + 1;
        }
        None
    }

    /// The service of a name, if there is one.
    pub open spec fn service(self, service: Seq<char>) -> Option<ServiceStateMachine> {
        if self.services@.contains_key(service) {
            Some(self.services@[service])
        } else {
            None
        }
    }

    /// The pod behind a service that is active.
    pub open spec fn backend_of(self, svc: Option<ServiceStateMachine>) -> Option<
        EndpointPodBackend,
    > {
        match svc {
            Some(svc) => match svc.state {
                ServiceState::Active { worker_id, .. } => {
                    if self.spec.workloads@.contains_key(svc.workload_id.id()) {
                        Some(
                            EndpointPodBackend {
                                pod_ip: self.spec.workloads@[svc.workload_id.id()].network.ip,
                                placement: Some(EndpointPlacement { worker_id }),
                                ready: true,
                            },
                        )
                    } else {
                        None
                    }
                },
                _ => None,
            },
            None => None,
        }
    }

    /// The pod behind a service that is active.
    pub fn build_service_backend(&self, svc_id: &ServiceId) -> (r: Option<EndpointPodBackend>)
        ensures
            r == self.backend_of(self.service(svc_id.id())),
    {
        let svc: &ServiceStateMachine = match self.services.get(svc_id) {
            Some(svc) => svc,
            None => {
                return None;
            },
        };
        match &svc.state {
            ServiceState::Active { worker_id, .. } => {
                match self.spec.workloads.get(&svc.workload_id) {
                    Some(wl_spec) => Some(
                        EndpointPodBackend {
                            pod_ip: wl_spec.network.ip,
                            placement: Some(EndpointPlacement { worker_id: worker_id.clone() }),
                            ready: true,
                        },
                    ),
                    None => None,
                }
            },
            _ => None,
        }
    }

    /// The endpoint of a workload's pod, where the pods are `pods`.
    pub open spec fn workload_endpoint_in(
        self,
        pods: Seq<(PodId, PodInfo)>,
        workload: Seq<char>,
    ) -> EndpointSpec {
        EndpointSpec {
            ip: self.spec.workloads@[workload].network.ip,
            kind: EndpointKind::Pod { placement: placement_of(pods, workload) },
        }
    }

    /// The endpoint of a workload's pod.
    pub open spec fn workload_endpoint(self, workload: Seq<char>) -> EndpointSpec {
        self.workload_endpoint_in(self.pod_map.seq(), workload)
    }

    /// The endpoint of a service that stands as `svc` says.
    pub open spec fn service_endpoint(
        self,
        service_id: ServiceId,
        svc: Option<ServiceStateMachine>,
    ) -> EndpointSpec {
        let spec = self.spec.services@[service_id.id()];
        EndpointSpec {
            ip: spec.ip,
            kind: EndpointKind::Service {
                service_id,
                policy: spec.policy,
                backend: self.backend_of(svc),
            },
        }
    }

    /// The endpoint of a client. Clients are placed on the first worker whose fabric is up.
    pub open spec fn peer_endpoint(self, peer: WgPeer) -> EndpointSpec {
        let up = targets(self.workers.seq(), None);
        EndpointSpec {
            ip: peer.client_ip,
            kind: EndpointKind::WireGuardPeer {
                placement: if up.len() > 0 {
                    Some(EndpointPlacement { worker_id: up[0] })
                } else {
                    None
                },
            },
        }
    }

    /// All endpoints: workloads, then services, then clients.
    pub open spec fn endpoints(self) -> Seq<EndpointSpec> {
        let w = self.spec.workloads.seq();
        let s = self.spec.services.seq();
        Seq::new(w.len(), |i: int| self.workload_endpoint(w[i].0.id())) + Seq::new(
            s.len(),
            |i: int| self.service_endpoint(s[i].0, self.service(s[i].0.id())),
        ) + Seq::new(self.wg_peers@.len(), |i: int| self.peer_endpoint(self.wg_peers@[i]))
    }

    /// All endpoints: workloads, then services, then clients.
    pub fn build_endpoint_specs(&self) -> (r: Vec<EndpointSpec>)
        ensures
            r@ == self.endpoints(),
    {
        let mut specs: Vec<EndpointSpec> = Vec::new();
        let ghost w = self.spec.workloads.seq();
        let ghost s = self.spec.services.seq();
        let ghost first = Seq::new(w.len(), |i: int| self.workload_endpoint(w[i].0.id()));
        let ghost second = Seq::new(
            s.len(),
            |i: int| self.service_endpoint(s[i].0, self.service(s[i].0.id())),
        );
        let ghost third = Seq::new(
            self.wg_peers@.len(),
            |i: int| self.peer_endpoint(self.wg_peers@[i]),
        );
        let n: usize = self.spec.workloads.len();
        let mut i: usize = 0;
        while i < n
            invariant
                n == w.len(),
                w == self.spec.workloads.seq(),
                i <= n,
                first == Seq::new(w.len(), |i: int| self.workload_endpoint(w[i].0.id())),
                specs@ == first.take(i as int),
            decreases n - i,
        {
            let id: &WorkloadId = self.spec.workloads.key_at(i);
            let wl_spec: &WorkloadSpec = self.spec.workloads.value_at(i);
            specs.push(
                EndpointSpec {
                    ip: wl_spec.network.ip,
                    kind: EndpointKind::Pod { placement: self.find_placement(id) },
                },
            );
            proof {
                assert(specs@ =~= first.take(i + 1));
            }
            i = i + 1;
        }
        assert(specs@ =~= first);
        let m: usize = self.spec.services.len();
        let mut j: usize = 0;
        while j < m
            invariant
                m == s.len(),
                s == self.spec.services.seq(),
                j <= m,
                second == Seq::new(
                    s.len(),
                    |i: int| self.service_endpoint(s[i].0, self.service(s[i].0.id())),
                ),
                specs@ == first + second.take(j as int),
            decreases m - j,
        {
            let id: &ServiceId = self.spec.services.key_at(j);
            let svc_spec: &ServiceSpec = self.spec.services.value_at(j);
            specs.push(
                EndpointSpec {
                    ip: svc_spec.ip,
                    kind: EndpointKind::Service {
                        service_id: id.clone(),
                        policy: svc_spec.policy.clone(),
                        backend: self.build_service_backend(id),
                    },
                },
            );
            proof {
                assert(specs@ =~= first + second.take(j + 1));
            }
            j = j + 1;
        }
        assert(specs@ =~= first + second);
        let up: Vec<WorkerId> = self.active_worker_ids();
        let mut k: usize = 0;
        while k < self.wg_peers.len()
            invariant
                k <= self.wg_peers@.len(),
                up@ == targets(self.workers.seq(), None),
                third == Seq::new(
                    self.wg_peers@.len(),
                    |i: int| self.peer_endpoint(self.wg_peers@[i]),
                ),
                specs@ == first + second + third.take(k as int),
            decreases self.wg_peers@.len() - k,
        {
            let placement: Option<EndpointPlacement> = if up.len() > 0 {
                Some(EndpointPlacement { worker_id: up[0].clone() })
            } else {
                None
            };
            specs.push(
                EndpointSpec {
                    ip: self.wg_peers[k].client_ip,
                    kind: EndpointKind::WireGuardPeer { placement },
                },
            );
            proof {
                assert(specs@ =~= first + second + third.take(k + 1));
            }
            k = k + 1;
        }
        assert(specs@ =~= self.endpoints());
        specs
    }

    /// One command for each active worker.
    pub open spec fn broadcast(self, command: CommandView) -> Seq<(WorkerId, CommandView)> {
        to_each(targets(self.workers.seq(), None), command)
    }

    /// The command that carries all endpoints.
    pub open spec fn endpoint_sync(self) -> CommandView {
        CommandView::EndpointSync { namespace_id: self.namespace_id, endpoints: self.endpoints() }
    }

    /// Sends all endpoints to every active worker.
    pub fn emit_endpoint_sync(&self, out: &mut NamespaceOutput)
        ensures
            final(out)@ == old(out)@.with_commands(self.broadcast(self.endpoint_sync())),
    {
        let command = WorkerCommand::EndpointSync {
            namespace_id: self.namespace_id.clone(),
            endpoints: self.build_endpoint_specs(),
        };
        send_to_active_workers(&self.workers, None, &command, out);
    }

    /// Sends all endpoints to one worker.
    pub fn emit_endpoint_sync_to_worker(&self, worker_id: &WorkerId, out: &mut NamespaceOutput)
        ensures
            final(out)@ == old(out)@.with_command(*worker_id, self.endpoint_sync()),
    {
        let command = WorkerCommand::EndpointSync {
            namespace_id: self.namespace_id.clone(),
            endpoints: self.build_endpoint_specs(),
        };
        send_to_worker(worker_id, out, command);
    }

    /// The command that renews one endpoint.
    pub open spec fn endpoint_update(self, endpoint: EndpointSpec) -> CommandView {
        CommandView::EndpointUpdate {
            namespace_id: self.namespace_id,
            upserted: seq![endpoint],
            removed_ips: seq![],
        }
    }

    /// The renewal of a workload's endpoint for every active worker, where the pods are `pods`.
    pub open spec fn workload_update_in(
        self,
        pods: Seq<(PodId, PodInfo)>,
        workload: Seq<char>,
    ) -> Seq<(WorkerId, CommandView)> {
        if self.spec.workloads@.contains_key(workload) {
            self.broadcast(self.endpoint_update(self.workload_endpoint_in(pods, workload)))
        } else {
            seq![]
        }
    }

    /// The renewal of a workload's endpoint for every active worker.
    pub open spec fn workload_update(self, workload: Seq<char>) -> Seq<(WorkerId, CommandView)> {
        self.workload_update_in(self.pod_map.seq(), workload)
    }

    /// Renews a workload's endpoint at every active worker.
    pub fn emit_endpoint_update_for_workload(
        &self,
        workload_id: &WorkloadId,
        out: &mut NamespaceOutput,
    )
        ensures
            final(out)@ == old(out)@.with_commands(self.workload_update(workload_id.id())),
    {
        match self.spec.workloads.get(workload_id) {
            Some(wl_spec) => {
                let endpoint = EndpointSpec {
                    ip: wl_spec.network.ip,
                    kind: EndpointKind::Pod { placement: self.find_placement(workload_id) },
                };
                self.send_endpoint(endpoint, out);
            },
            None => {
                assert(out@ =~= old(out)@.with_commands(self.workload_update(workload_id.id())));
            },
        }
    }

    /// The renewal of the endpoint of a service that stands as `svc` says, for every active worker.
    pub open spec fn service_update(
        self,
        service_id: ServiceId,
        svc: Option<ServiceStateMachine>,
    ) -> Seq<(WorkerId, CommandView)> {
        if self.spec.services@.contains_key(service_id.id()) {
            self.broadcast(self.endpoint_update(self.service_endpoint(service_id, svc)))
        } else {
            seq![]
        }
    }

    /// Renews a service's endpoint at every active worker.
    pub fn emit_endpoint_update_for_service(
        &self,
        service_id: &ServiceId,
        out: &mut NamespaceOutput,
    )
        ensures
            final(out)@ == old(out)@.with_commands(
                self.service_update(*service_id, self.service(service_id.id())),
            ),
    {
        match self.spec.services.get(service_id) {
            Some(svc_spec) => {
                let endpoint = EndpointSpec {
                    ip: svc_spec.ip,
                    kind: EndpointKind::Service {
                        service_id: service_id.clone(),
                        policy: svc_spec.policy.clone(),
                        backend: self.build_service_backend(service_id),
                    },
                };
                self.send_endpoint(endpoint, out);
            },
            None => {
                assert(out@ =~= old(out)@.with_commands(
                    self.service_update(*service_id, self.service(service_id.id())),
                ));
            },
        }
    }

    fn send_endpoint(&self, endpoint: EndpointSpec, out: &mut NamespaceOutput)
        ensures
            final(out)@ == old(out)@.with_commands(self.broadcast(self.endpoint_update(endpoint))),
    {
        let mut upserted: Vec<EndpointSpec> = Vec::new();
        upserted.push(endpoint);
        assert(upserted@ =~= seq![endpoint]);
        let command = WorkerCommand::EndpointUpdate {
            namespace_id: self.namespace_id.clone(),
            upserted,
            removed_ips: Vec::new(),
        };
        assert(command@ =~= self.endpoint_update(endpoint));
        send_to_active_workers(&self.workers, None, &command, out);
    }

    /// The command that carries all names.
    pub open spec fn registry_sync(self) -> CommandView {
        CommandView::RegistrySync {
            namespace_id: self.namespace_id,
            entries: registry_of(self.spec.services.seq()),
        }
    }

    /// Sends all names to every active worker.
    pub fn emit_registry_sync(&self, out: &mut NamespaceOutput)
        ensures
            final(out)@ == old(out)@.with_commands(self.broadcast(self.registry_sync())),
    {
        let command = WorkerCommand::RegistrySync {
            namespace_id: self.namespace_id.clone(),
            entries: self.build_registry_entries(),
        };
        send_to_active_workers(&self.workers, None, &command, out);
    }

    /// Sends all names to one worker.
    pub fn emit_registry_sync_to_worker(&self, worker_id: &WorkerId, out: &mut NamespaceOutput)
        ensures
            final(out)@ == old(out)@.with_command(*worker_id, self.registry_sync()),
    {
        let command = WorkerCommand::RegistrySync {
            namespace_id: self.namespace_id.clone(),
            entries: self.build_registry_entries(),
        };
        send_to_worker(worker_id, out, command);
    }

    /// The routes to the pods that run elsewhere than on a worker.
    pub fn build_fabric_routes_for_worker(&self, target_worker_id: &WorkerId) -> (r: Vec<
        FabricRouteEntry,
    >)
        ensures
            r@ == routes_for(
                self.pod_map.seq(),
                self.spec.workloads@,
                target_worker_id.id(),
            ),
    {
        let pods: Vec<(&PodId, &PodInfo)> = self.pod_map.iter();
        let ghost s = self.pod_map.seq();
        let ghost m = self.spec.workloads@;
        let ghost t = target_worker_id.id();
        let mut r: Vec<FabricRouteEntry> = Vec::new();
        let mut i: usize = 0;
        proof {
            assert(s.take(0) =~= Seq::<(PodId, PodInfo)>::empty());
        }
        while i < pods.len()
            invariant
                i <= pods@.len(),
                pods@.len() == s.len(),
                m == self.spec.workloads@,
                t == target_worker_id.id(),
                forall|j: int| 0 <= j < s.len() ==> *(#[trigger] pods@[j]).1 == s[j].1,
                r@ == routes_for(s.take(i as int), m, t),
            decreases pods@.len() - i,
        {
            proof {
                assert(s.take(i + 1).drop_last() =~= s.take(i as int));
                assert(s.take(i + 1).last() == s[i as int]);
            }
            let info: &PodInfo = pods[i].1;
            if !info.worker_id.same(target_worker_id) {
                if let Some(wl_spec) = self.spec.workloads.get(&info.workload_id) {
                    r.push(
                        FabricRouteEntry {
                            ip: wl_spec.network.ip,
                            remote_worker: info.worker_id.clone(),
                        },
                    );
                }
            }
            i = i + 1;
        }
        proof {
            assert(s.take(s.len() as int) =~= s);
        }
        r
    }

    /// The command that carries all routes of a worker.
    pub open spec fn route_sync(self, worker: Seq<char>) -> CommandView {
        CommandView::FabricRouteSync {
            namespace_id: self.namespace_id,
            routes: routes_for(self.pod_map.seq(), self.spec.workloads@, worker),
        }
    }

    /// Sends every active worker its routes.
    pub fn emit_fabric_route_sync(&self, out: &mut NamespaceOutput)
        ensures
            final(out)@ == old(out)@.with_commands(
                targets(self.workers.seq(), None).map_values(
                    |w: WorkerId| (w, self.route_sync(w.id())),
                ),
            ),
    {
        let up: Vec<WorkerId> = self.active_worker_ids();
        let ghost all = up@.map_values(|w: WorkerId| (w, self.route_sync(w.id())));
        let mut i: usize = 0;
        assert(out@ =~= old(out)@.with_commands(all.take(0)));
        while i < up.len()
            invariant
                i <= up@.len(),
                all == up@.map_values(|w: WorkerId| (w, self.route_sync(w.id()))),
                out@ == old(out)@.with_commands(all.take(i as int)),
            decreases up@.len() - i,
        {
            self.emit_fabric_route_sync_to_worker(&up[i], out);
            proof {
                assert(out@ =~= old(out)@.with_commands(all.take(i + 1)));
            }
            i = i + 1;
        }
        assert(all.take(up@.len() as int) =~= all);
    }

    /// Sends one worker its routes.
    pub fn emit_fabric_route_sync_to_worker(&self, worker_id: &WorkerId, out: &mut NamespaceOutput)
        ensures
            final(out)@ == old(out)@.with_command(*worker_id, self.route_sync(worker_id.id())),
    {
        let command = WorkerCommand::FabricRouteSync {
            namespace_id: self.namespace_id.clone(),
            routes: self.build_fabric_routes_for_worker(worker_id),
        };
        send_to_worker(worker_id, out, command);
    }

    /// The command that adds the route to a pod.
    pub open spec fn route_add(self, pod_ip: u32, pod_worker_id: WorkerId) -> CommandView {
        CommandView::FabricRouteUpdate {
            namespace_id: self.namespace_id,
            added: seq![FabricRouteEntry { ip: pod_ip, remote_worker: pod_worker_id }],
            removed_ips: seq![],
        }
    }

    /// Adds the route to a pod at every active worker but its own.
    pub fn emit_fabric_route_add(
        &self,
        pod_ip: u32,
        pod_worker_id: &WorkerId,
        out: &mut NamespaceOutput,
    )
        ensures
            final(out)@ == old(out)@.with_commands(
                to_each(
                    targets(self.workers.seq(), Some(pod_worker_id.id())),
                    self.route_add(pod_ip, *pod_worker_id),
                ),
            ),
    {
        let mut added: Vec<FabricRouteEntry> = Vec::new();
        added.push(FabricRouteEntry { ip: pod_ip, remote_worker: pod_worker_id.clone() });
        let command = WorkerCommand::FabricRouteUpdate {
            namespace_id: self.namespace_id.clone(),
            added,
            removed_ips: Vec::new(),
        };
        assert(command@ =~= self.route_add(pod_ip, *pod_worker_id));
        send_to_active_workers(&self.workers, Some(pod_worker_id), &command, out);
    }

    /// The command that removes the route to a pod.
    pub open spec fn route_remove(self, pod_ip: u32) -> CommandView {
        CommandView::FabricRouteUpdate {
            namespace_id: self.namespace_id,
            added: seq![],
            removed_ips: seq![pod_ip],
        }
    }

    /// Removes the route to a pod at every active worker.
    pub fn emit_fabric_route_remove(&self, pod_ip: u32, out: &mut NamespaceOutput)
        ensures
            final(out)@ == old(out)@.with_commands(self.broadcast(self.route_remove(pod_ip))),
    {
        let mut removed_ips: Vec<u32> = Vec::new();
        removed_ips.push(pod_ip);
        let command = WorkerCommand::FabricRouteUpdate {
            namespace_id: self.namespace_id.clone(),
            added: Vec::new(),
            removed_ips,
        };
        assert(command@ =~= self.route_remove(pod_ip));
        send_to_active_workers(&self.workers, None, &command, out);
    }

    /// Removes the route to a workload's pod where there is more than one worker.
    pub fn maybe_remove_fabric_route(&self, workload_id: &WorkloadId, out: &mut NamespaceOutput)
        ensures
            final(out)@ == (if self.workers.seq().len() > 1 && self.spec.workloads@.contains_key(
                workload_id.id(),
            ) {
                old(out)@.with_commands(
                    self.broadcast(
                        self.route_remove(self.spec.workloads@[workload_id.id()].network.ip),
                    ),
                )
            } else {
                old(out)@
            }),
    {
        if self.workers.len() > 1 {
            if let Some(wl_spec) = self.spec.workloads.get(workload_id) {
                self.emit_fabric_route_remove(wl_spec.network.ip, out);
            }
        }
    }

    /// A demand check for each workload, in order.
    pub fn reconcile_all_demand(&self) -> (r: Vec<FollowUp>)
        ensures
            r@ == demand_checks(self.workloads.seq()),
    {
        let n: usize = self.workloads.len();
        let mut r: Vec<FollowUp> = Vec::new();
        let mut i: usize = 0;
        while i < n
            invariant
                n == self.workloads.seq().len(),
                i <= n,
                r@.len() == i,
                forall|j: int|
                    0 <= j < i ==> #[trigger] r@[j] == demand_checks(self.workloads.seq())[j],
            decreases n - i,
        {
            r.push(FollowUp::ReconcileDemand { workload_id: self.workloads.key_at(i).clone() });
            i = i + 1;
        }
        assert(r@ =~= demand_checks(self.workloads.seq()));
        r
    }
}

} // verus!
