//! The cluster: the scheduler, the workers, and which namespaces there are.
//!
//! Namespaces live elsewhere. They are told things, and tell things back, by messages.
use vstd::prelude::*;

use crate::adapter::timer::TimerConfig;
use crate::engine::protocol::{CommandView, WorkerCommand};
use crate::engine::routing::{
    fits, law_gone_worker_is_unlisted, room, route, run, take_event, taken, Routing, Work,
};
use crate::engine::scheduler::SchedulerCore;
use crate::engine::types::{
    as_input, scheduler_message_to_input, ClientCommand, ClientError, ClusterOutView,
    NamespacePatch, NamespaceToOrchestrator, OrchestratorOutput, OrchestratorToNamespace,
    SchedulerCoreInput,
};
use crate::engine::worker_state::{
    first_tunnel, first_wireguard, lemma_room_stays, query_of, room_for, WireguardAdapterInfo,
    WorkerCapabilities, WorkerQueryInfo, WorkerStateCore, WorkerStateCoreEvent, WorkerStateView,
    WorkerTunnelInfo,
};
use crate::id_registry::{registry_of, IdRegistry, IdRegistryMap};
use crate::ids::{NamespaceId, PoolId};
use crate::orchestrator::networking::{host_port, host_port_text};
use crate::orchestrator::segments::{find_segment, first_usable, following, place, usable};
use crate::sm::{WorkerId, WorkerInfo};
use crate::sorted_map::{increasing, Key, SortedMap};
use crate::text::{decimal, dotted, dotted_text, push_decimal};
use crate::types::{clone_pool, NamespaceSpec, NetworkConfig};

verus! {

/// A worker as namespaces hear of it.
#[derive(Debug, PartialEq, Eq)]
pub struct ConnectedWorkerInfo {
    pub proto_worker_id: WorkerId,
    pub max_pods: u32,
    pub default_pool: Option<PoolId>,
}

/// A worker that connects.
pub struct WorkerConnectedInfo {
    pub worker_id: WorkerId,
    pub capabilities: WorkerCapabilities,
    pub tunnel_info: Option<WorkerTunnelInfo>,
    pub wireguard_info: Option<WireguardAdapterInfo>,
    pub proto_worker_id: WorkerId,
}

/// A namespace to create.
pub struct CreateNamespaceInfo {
    pub namespace_id: NamespaceId,
    pub network: NetworkConfig,
}

/// A worker that a new namespace hears of.
#[derive(Debug, PartialEq, Eq)]
pub struct ConnectedWorkerSummary {
    pub worker_id: WorkerId,
    pub proto_worker_id: WorkerId,
    pub max_pods: u32,
    pub default_pool: Option<PoolId>,
}

/// What a new namespace is made from.
pub struct NamespaceCreationInfo {
    pub network: NetworkConfig,
    /// The names that the cluster knows of the namespace so far. Later ones are registered in the map
    /// of the cluster.
    pub id_registry: IdRegistry,
    pub timer_config: TimerConfig,
    pub connected_workers: Vec<ConnectedWorkerSummary>,
}

/// Where a client is to connect, once it has an address.
#[derive(Debug, PartialEq, Eq)]
pub struct ConnectTarget {
    pub worker_id: WorkerId,
    pub server_public_key: [u8; 32],
    pub endpoint: String,
}

/// How a client connects.
#[derive(Debug, PartialEq, Eq)]
pub struct ConnectResult {
    pub server_public_key: [u8; 32],
    pub endpoint: String,
    pub client_ip: u32,
    pub subnet: String,
}

/// What the cluster takes in.
pub enum OrchestratorInputNew {
    WorkerStateEvent(WorkerStateCoreEvent),
    SchedulerEvent(SchedulerCoreInput),
    FromNamespace { namespace_id: NamespaceId, message: NamespaceToOrchestrator },
}

/// The first store of a worker.
pub open spec fn default_pool(capabilities: WorkerCapabilities) -> Option<PoolId> {
    if capabilities.pools@.len() == 0 {
        None
    } else {
        Some(capabilities.pools@[0].pool_id)
    }
}

/// The workers that a new namespace hears of.
pub open spec fn summaries(workers: Seq<(WorkerId, ConnectedWorkerInfo)>) -> Seq<
    ConnectedWorkerSummary,
> {
    workers.map_values(
        |w: (WorkerId, ConnectedWorkerInfo)|
            ConnectedWorkerSummary {
                worker_id: w.0,
                proto_worker_id: w.1.proto_worker_id,
                max_pods: w.1.max_pods,
                default_pool: w.1.default_pool,
            },
    )
}

/// A worker is made known to one namespace.
pub open spec fn introduced(
    r: Routing,
    namespaces: Seq<(NamespaceId, ())>,
    networks: Map<Seq<char>, NetworkConfig>,
    worker_id: WorkerId,
    info: ConnectedWorkerInfo,
    namespace_id: NamespaceId,
) -> Routing {
    let out = if networks.contains_key(namespace_id.id()) {
        r.out.directed(
            worker_id,
            CommandView::CreateNamespace { namespace_id, network: networks[namespace_id.id()] },
        )
    } else {
        r.out
    };
    taken(
        Routing {
            out: out.told(
                namespace_id,
                OrchestratorToNamespace::WorkerConnected {
                    worker_id,
                    proto_worker_id: info.proto_worker_id,
                    info: WorkerInfo { capacity: info.max_pods, default_pool: info.default_pool },
                },
            ),
            ..r
        },
        namespaces,
        WorkerStateCoreEvent::NamespaceAssigned { worker_id, namespace_id },
    )
}

/// A worker is made known to some namespaces, in order.
pub open spec fn introduced_to_each(
    r: Routing,
    namespaces: Seq<(NamespaceId, ())>,
    networks: Map<Seq<char>, NetworkConfig>,
    worker_id: WorkerId,
    info: ConnectedWorkerInfo,
    some: Seq<(NamespaceId, ())>,
) -> Routing
    decreases some.len(),
{
    if some.len() == 0 {
        r
    } else {
        introduced(
            introduced_to_each(r, namespaces, networks, worker_id, info, some.drop_last()),
            namespaces,
            networks,
            worker_id,
            info,
            some.last().0,
        )
    }
}

/// Some namespaces are told that a worker is gone, in order.
pub open spec fn parted_from_each(
    r: Routing,
    namespaces: Seq<(NamespaceId, ())>,
    worker_id: WorkerId,
    some: Seq<(NamespaceId, ())>,
) -> Routing
    decreases some.len(),
{
    if some.len() == 0 {
        r
    } else {
        let rest = parted_from_each(r, namespaces, worker_id, some.drop_last());
        let namespace_id = some.last().0;
        taken(
            Routing {
                out: rest.out.told(
                    namespace_id,
                    OrchestratorToNamespace::WorkerDisconnected { worker_id },
                ),
                ..rest
            },
            namespaces,
            WorkerStateCoreEvent::NamespaceUnassigned { worker_id, namespace_id },
        )
    }
}

/// Some workers are told of a new namespace, in order.
pub open spec fn spread(
    r: Routing,
    namespaces: Seq<(NamespaceId, ())>,
    namespace_id: NamespaceId,
    network: NetworkConfig,
    some: Seq<(WorkerId, ConnectedWorkerInfo)>,
) -> Routing
    decreases some.len(),
{
    if some.len() == 0 {
        r
    } else {
        let rest = spread(r, namespaces, namespace_id, network, some.drop_last());
        let worker_id = some.last().0;
        taken(
            Routing {
                out: rest.out.directed(
                    worker_id,
                    CommandView::CreateNamespace { namespace_id, network },
                ),
                ..rest
            },
            namespaces,
            WorkerStateCoreEvent::NamespaceAssigned { worker_id, namespace_id },
        )
    }
}

/// Some workers cease to serve a namespace, in order.
pub open spec fn withdrawn(
    r: Routing,
    namespaces: Seq<(NamespaceId, ())>,
    namespace_id: NamespaceId,
    some: Seq<(WorkerId, ConnectedWorkerInfo)>,
) -> Routing
    decreases some.len(),
{
    if some.len() == 0 {
        r
    } else {
        taken(
            withdrawn(r, namespaces, namespace_id, some.drop_last()),
            namespaces,
            WorkerStateCoreEvent::NamespaceUnassigned { worker_id: some.last().0, namespace_id },
        )
    }
}

pub struct OrchestratorCore {
    pub scheduler: SchedulerCore,
    pub worker_state: WorkerStateCore,
    pub timer_config: TimerConfig,
    pub connected_workers: SortedMap<WorkerId, ConnectedWorkerInfo>,
    pub namespace_ids: SortedMap<NamespaceId, ()>,
    pub next_segment_id: u16,
    pub active_segment_ids: SortedMap<u16, ()>,
    pub namespace_segments: SortedMap<NamespaceId, u16>,
    pub namespace_networks: SortedMap<NamespaceId, NetworkConfig>,
    pub id_registry_map: IdRegistryMap,
}

impl OrchestratorCore {
    /// The scheduler and the workers, with nothing given out yet.
    pub open spec fn routing(self) -> Routing {
        Routing {
            sched: self.scheduler@,
            ws: self.worker_state@,
            out: ClusterOutView::nothing(),
        }
    }

    /// All the pods that may come can be counted.
    pub open spec fn roomy(self) -> bool {
        room_for(self.worker_state@.workers, self.scheduler@.pending.len())
    }

    pub fn new(timer_config: TimerConfig, id_registry_map: IdRegistryMap) -> (r: Self)
        ensures
            r.roomy(),
            r.scheduler@.fresh(),
            r.worker_state@ == (WorkerStateView {
                workers: seq![],
                namespace_segments: Map::empty(),
            }),
            r.timer_config == timer_config,
            r.connected_workers@ == Map::<WorkerId, ConnectedWorkerInfo>::empty(),
            r.namespace_ids@ == Map::<Seq<char>, ()>::empty(),
            r.next_segment_id == 1,
            r.active_segment_ids@ == Map::<u16, ()>::empty(),
            r.namespace_segments@ == Map::<Seq<char>, u16>::empty(),
            r.namespace_networks@ == Map::<Seq<char>, NetworkConfig>::empty(),
            r.id_registry_map == id_registry_map,
    {
        OrchestratorCore {
            scheduler: SchedulerCore::new(),
            worker_state: WorkerStateCore::new(),
            timer_config,
            connected_workers: SortedMap::new(),
            namespace_ids: SortedMap::new(),
            next_segment_id: 1,
            active_segment_ids: SortedMap::new(),
            namespace_segments: SortedMap::new(),
            namespace_networks: SortedMap::new(),
            id_registry_map,
        }
    }

    /// Only the scheduler and the workers differ.
    pub open spec fn only_routed(self, before: OrchestratorCore) -> bool {
        self == OrchestratorCore {
            scheduler: self.scheduler,
            worker_state: self.worker_state,
            ..before
        }
    }

    /// What the scheduler and the workers come to, and what is given out.
    pub open spec fn routed(self, output: OrchestratorOutput) -> Routing {
        Routing { sched: self.scheduler@, ws: self.worker_state@, out: output@ }
    }

    /// Takes in an event at the workers, with all that it leads to.
    fn take(&mut self, event: WorkerStateCoreEvent, output: &mut OrchestratorOutput)
        requires
            old(self).roomy(),
            fits(old(self).routed(*old(output)), event),
        ensures
            final(self).roomy(),
            final(self).only_routed(*old(self)),
            final(self).routed(*final(output)) == taken(
                old(self).routed(*old(output)),
                old(self).namespace_ids.seq(),
                event,
            ),
    {
        take_event(
            &mut self.scheduler,
            &mut self.worker_state,
            &self.namespace_ids,
            event,
            output,
        );
    }

    /// Lets the scheduler take an input, with all that it leads to.
    fn schedule(&mut self, input: SchedulerCoreInput, output: &mut OrchestratorOutput)
        requires
            room(old(self).routed(*old(output)), seq![Work::Input(input)]),
        ensures
            final(self).roomy(),
            final(self).only_routed(*old(self)),
            final(self).routed(*final(output)) == run(
                old(self).routed(*old(output)),
                old(self).namespace_ids.seq(),
                seq![Work::Input(input)],
            ),
    {
        let mut work: Vec<Work> = Vec::new();
        work.push(Work::Input(input));
        assert(work@ =~= seq![Work::Input(input)]);
        route(&mut self.scheduler, &mut self.worker_state, &self.namespace_ids, work, output);
    }

    /// Whether the pods that an input may bring can be counted.
    pub open spec fn can_take(self, input: OrchestratorInputNew) -> bool {
        match input {
            OrchestratorInputNew::WorkerStateEvent(event) => fits(self.routing(), event),
            OrchestratorInputNew::SchedulerEvent(i) => room(
                self.routing(),
                seq![Work::Input(i)],
            ),
            OrchestratorInputNew::FromNamespace { message, .. } => match message {
                NamespaceToOrchestrator::SchedulerMessage(m) => room(
                    self.routing(),
                    seq![Work::Input(as_input(m))],
                ),
            },
        }
    }

    /// What an input comes to.
    pub open spec fn processed(self, input: OrchestratorInputNew) -> Routing {
        match input {
            OrchestratorInputNew::WorkerStateEvent(event) => taken(
                self.routing(),
                self.namespace_ids.seq(),
                event,
            ),
            OrchestratorInputNew::SchedulerEvent(i) => run(
                self.routing(),
                self.namespace_ids.seq(),
                seq![Work::Input(i)],
            ),
            OrchestratorInputNew::FromNamespace { message, .. } => match message {
                NamespaceToOrchestrator::SchedulerMessage(m) => run(
                    self.routing(),
                    self.namespace_ids.seq(),
                    seq![Work::Input(as_input(m))],
                ),
            },
        }
    }

    /// Takes one input, and says what comes of it.
    pub fn process(&mut self, input: OrchestratorInputNew) -> (r: OrchestratorOutput)
        requires
            old(self).roomy(),
            old(self).can_take(input),
        ensures
            final(self).roomy(),
            final(self).only_routed(*old(self)),
            final(self).routed(r) == old(self).processed(input),
    {
        let mut output = OrchestratorOutput::new();
        match input {
            OrchestratorInputNew::WorkerStateEvent(event) => {
                self.take(event, &mut output);
            },
            OrchestratorInputNew::SchedulerEvent(i) => {
                self.schedule(i, &mut output);
            },
            OrchestratorInputNew::FromNamespace { message, .. } => {
                match message {
                    NamespaceToOrchestrator::SchedulerMessage(m) => {
                        self.schedule(scheduler_message_to_input(m), &mut output);
                    },
                }
            },
        }
        output
    }

    /// A worker has connected. Every namespace hears of it, and it hears of every namespace.
    pub fn worker_connected(&mut self, info: WorkerConnectedInfo) -> (r: OrchestratorOutput)
        requires
            old(self).roomy(),
        ensures
            final(self).roomy(),
            final(self).connected_workers@ == old(self).connected_workers@.insert(
                info.worker_id,
                ConnectedWorkerInfo {
                    proto_worker_id: info.proto_worker_id,
                    max_pods: info.capabilities.max_pods,
                    default_pool: default_pool(info.capabilities),
                },
            ),
            *final(self) == (OrchestratorCore {
                scheduler: final(self).scheduler,
                worker_state: final(self).worker_state,
                connected_workers: final(self).connected_workers,
                ..*old(self)
            }),
            final(self).routed(r) == introduced_to_each(
                taken(
                    old(self).routing(),
                    old(self).namespace_ids.seq(),
                    WorkerStateCoreEvent::Connected {
                        worker_id: info.worker_id,
                        capabilities: info.capabilities,
                        tunnel_info: info.tunnel_info,
                        wireguard_info: info.wireguard_info,
                        proto_worker_id: info.proto_worker_id,
                    },
                ),
                old(self).namespace_ids.seq(),
                old(self).namespace_networks@,
                info.worker_id,
                ConnectedWorkerInfo {
                    proto_worker_id: info.proto_worker_id,
                    max_pods: info.capabilities.max_pods,
                    default_pool: default_pool(info.capabilities),
                },
                old(self).namespace_ids.seq(),
            ),
    {
        let mut output = OrchestratorOutput::new();
        let worker_id: WorkerId = info.worker_id;
        let proto_worker_id: WorkerId = info.proto_worker_id;
        let max_pods: u32 = info.capabilities.max_pods;
        let pool: Option<PoolId> = if info.capabilities.pools.len() == 0 {
            None
        } else {
            Some(info.capabilities.pools[0].pool_id.clone())
        };
        let ghost known = ConnectedWorkerInfo {
            proto_worker_id,
            max_pods,
            default_pool: default_pool(info.capabilities),
        };
        self.connected_workers.insert(
            worker_id,
            ConnectedWorkerInfo { proto_worker_id, max_pods, default_pool: clone_pool(&pool) },
        );
        let event = WorkerStateCoreEvent::Connected {
            worker_id,
            capabilities: info.capabilities,
            tunnel_info: info.tunnel_info,
            wireguard_info: info.wireguard_info,
            proto_worker_id,
        };
        proof {
            use_type_invariant(&self.worker_state.workers);
            self.worker_state.lemma_in_order();
            lemma_room_stays(self.worker_state@, event, self.scheduler@.pending.len());
        }
        self.take(event, &mut output);
        let ghost start = self.routed(output);
        let ghost s = self.namespace_ids.seq();
        let n: usize = self.namespace_ids.len();
        let ghost mid = *self;
        let mut i: usize = 0;
        assert(s.take(0) =~= Seq::<(NamespaceId, ())>::empty());
        while i < n
            invariant
                i <= n,
                n == s.len(),
                s == self.namespace_ids.seq(),
                s == old(self).namespace_ids.seq(),
                self.roomy(),
                self.only_routed(mid),
                mid.namespace_networks == old(self).namespace_networks,
                known == (ConnectedWorkerInfo { proto_worker_id, max_pods, default_pool: pool }),
                self.routed(output) == introduced_to_each(
                    start,
                    s,
                    old(self).namespace_networks@,
                    worker_id,
                    known,
                    s.take(i as int),
                ),
            decreases n - i,
        {
            assert(s.take(i + 1).drop_last() =~= s.take(i as int));
            assert(s.take(i + 1).last() == s[i as int]);
            let namespace_id: NamespaceId = self.namespace_ids.key_at(i).clone();
            match self.namespace_networks.get(&namespace_id) {
                Some(network) => {
                    output.direct(
                        worker_id,
                        WorkerCommand::CreateNamespace {
                            namespace_id: namespace_id.clone(),
                            network: *network,
                        },
                    );
                },
                None => {},
            }
            output.tell(
                namespace_id.clone(),
                OrchestratorToNamespace::WorkerConnected {
                    worker_id,
                    proto_worker_id,
                    info: WorkerInfo { capacity: max_pods, default_pool: clone_pool(&pool) },
                },
            );
            let event = WorkerStateCoreEvent::NamespaceAssigned { worker_id, namespace_id };
            proof {
                use_type_invariant(&self.worker_state.workers);
                self.worker_state.lemma_in_order();
                lemma_room_stays(self.worker_state@, event, self.scheduler@.pending.len());
            }
            self.take(event, &mut output);
            i = i + 1;
        }
        assert(s.take(i as int) =~= s);
        output
    }

    /// A worker is gone. The scheduler hears of it first, so that nothing more is granted to it, then
    /// every namespace.
    pub fn worker_disconnected(&mut self, worker_id: WorkerId) -> (r: OrchestratorOutput)
        requires
            old(self).roomy(),
        ensures
            final(self).roomy(),
            final(self).connected_workers@ == old(self).connected_workers@.remove(worker_id),
            *final(self) == (OrchestratorCore {
                scheduler: final(self).scheduler,
                worker_state: final(self).worker_state,
                connected_workers: final(self).connected_workers,
                ..*old(self)
            }),
            final(self).routed(r) == parted_from_each(
                taken(
                    old(self).routing(),
                    old(self).namespace_ids.seq(),
                    WorkerStateCoreEvent::Disconnected { worker_id },
                ),
                old(self).namespace_ids.seq(),
                worker_id,
                old(self).namespace_ids.seq(),
            ),
    {
        let mut output = OrchestratorOutput::new();
        let _ = self.connected_workers.remove(&worker_id);
        let event = WorkerStateCoreEvent::Disconnected { worker_id };
        proof {
            use_type_invariant(&self.worker_state.workers);
            self.worker_state.lemma_in_order();
            lemma_room_stays(self.worker_state@, event, self.scheduler@.pending.len());
        }
        self.take(event, &mut output);
        let ghost start = self.routed(output);
        let ghost s = self.namespace_ids.seq();
        let n: usize = self.namespace_ids.len();
        let ghost mid = *self;
        let mut i: usize = 0;
        assert(s.take(0) =~= Seq::<(NamespaceId, ())>::empty());
        while i < n
            invariant
                i <= n,
                n == s.len(),
                s == self.namespace_ids.seq(),
                s == old(self).namespace_ids.seq(),
                self.roomy(),
                self.only_routed(mid),
                self.routed(output) == parted_from_each(start, s, worker_id, s.take(i as int)),
            decreases n - i,
        {
            assert(s.take(i + 1).drop_last() =~= s.take(i as int));
            assert(s.take(i + 1).last() == s[i as int]);
            let namespace_id: NamespaceId = self.namespace_ids.key_at(i).clone();
            output.tell(
                namespace_id.clone(),
                OrchestratorToNamespace::WorkerDisconnected { worker_id },
            );
            let event = WorkerStateCoreEvent::NamespaceUnassigned { worker_id, namespace_id };
            proof {
                use_type_invariant(&self.worker_state.workers);
                self.worker_state.lemma_in_order();
                lemma_room_stays(self.worker_state@, event, self.scheduler@.pending.len());
            }
            self.take(event, &mut output);
            i = i + 1;
        }
        assert(s.take(i as int) =~= s);
        output
    }

    /// Creates a namespace with a segment of its own. Every worker hears of it. A name that is taken
    /// is refused.
    pub fn create_namespace(&mut self, info: CreateNamespaceInfo) -> (r: (
        Result<NamespaceCreationInfo, ClientError>,
        OrchestratorOutput,
    ))
        requires
            old(self).roomy(),
            !old(self).namespace_ids@.contains_key(info.namespace_id.id()) ==> exists|id: u16|
                usable(old(self).active_segment_ids@, id),
        ensures
            final(self).roomy(),
            old(self).namespace_ids@.contains_key(info.namespace_id.id()) ==> {
                &&& *final(self) == *old(self)
                &&& r.0 == Err::<NamespaceCreationInfo, ClientError>(
                    ClientError::NamespaceAlreadyExists,
                )
                &&& r.1@ == ClusterOutView::nothing()
            },
            !old(self).namespace_ids@.contains_key(info.namespace_id.id()) ==> {
                &&& r.0 matches Ok(made)
                &&& made.network.segment_id matches Some(segment_id)
                &&& made.network == (NetworkConfig {
                    segment_id: Some(segment_id),
                    ..info.network
                })
                &&& made.timer_config == old(self).timer_config
                &&& made.connected_workers@ == summaries(old(self).connected_workers.seq())
                &&& first_usable(
                    old(self).active_segment_ids@,
                    old(self).next_segment_id,
                    segment_id,
                )
                &&& final(self).next_segment_id == place(segment_id, 1)
                &&& final(self).active_segment_ids@ == old(self).active_segment_ids@.insert(
                    segment_id,
                    (),
                )
                &&& final(self).namespace_segments@ == old(self).namespace_segments@.insert(
                    info.namespace_id.id(),
                    segment_id,
                )
                &&& final(self).namespace_networks@ == old(self).namespace_networks@.insert(
                    info.namespace_id.id(),
                    made.network,
                )
                &&& final(self).namespace_ids@ == old(self).namespace_ids@.insert(
                    info.namespace_id.id(),
                    (),
                )
                &&& final(self).id_registry_map@ == old(self).id_registry_map@.insert(
                    info.namespace_id.id(),
                    registry_of(old(self).id_registry_map@, info.namespace_id.id()),
                )
                &&& made.id_registry@ == registry_of(
                    old(self).id_registry_map@,
                    info.namespace_id.id(),
                )
                &&& final(self).timer_config == old(self).timer_config
                &&& final(self).connected_workers == old(self).connected_workers
                &&& final(self).routed(r.1) == spread(
                    taken(
                        old(self).routing(),
                        final(self).namespace_ids.seq(),
                        WorkerStateCoreEvent::RegisterNamespaceSegment {
                            namespace_id: info.namespace_id,
                            segment_id,
                        },
                    ),
                    final(self).namespace_ids.seq(),
                    info.namespace_id,
                    made.network,
                    old(self).connected_workers.seq(),
                )
            },
    {
        let mut output = OrchestratorOutput::new();
        if self.namespace_ids.contains_key(&info.namespace_id) {
            return (Err(ClientError::NamespaceAlreadyExists), output);
        }
        let segment_id: u16 = self.alloc_segment_id();
        let mut network: NetworkConfig = info.network;
        network.segment_id = Some(segment_id);
        self.namespace_segments.insert(info.namespace_id.clone(), segment_id);
        self.namespace_networks.insert(info.namespace_id.clone(), network);
        self.namespace_ids.insert(info.namespace_id.clone(), ());
        let event = WorkerStateCoreEvent::RegisterNamespaceSegment {
            namespace_id: info.namespace_id.clone(),
            segment_id,
        };
        proof {
            use_type_invariant(&self.worker_state.workers);
            self.worker_state.lemma_in_order();
            lemma_room_stays(self.worker_state@, event, self.scheduler@.pending.len());
        }
        self.take(event, &mut output);
        let id_registry: IdRegistry = self.id_registry_map.get_or_create(
            &info.namespace_id,
        ).clone();
        let ghost start = self.routed(output);
        let ghost s = self.connected_workers.seq();
        let ghost names = self.namespace_ids.seq();
        let n: usize = self.connected_workers.len();
        let ghost mid = *self;
        let mut workers: Vec<ConnectedWorkerSummary> = Vec::new();
        let mut i: usize = 0;
        assert(s.take(0) =~= Seq::<(WorkerId, ConnectedWorkerInfo)>::empty());
        assert(workers@ =~= summaries(s.take(0)));
        while i < n
            invariant
                i <= n,
                n == s.len(),
                s == self.connected_workers.seq(),
                names == self.namespace_ids.seq(),
                self.roomy(),
                self.only_routed(mid),
                workers@ == summaries(s.take(i as int)),
                self.routed(output) == spread(
                    start,
                    names,
                    info.namespace_id,
                    network,
                    s.take(i as int),
                ),
            decreases n - i,
        {
            assert(s.take(i + 1).drop_last() =~= s.take(i as int));
            assert(s.take(i + 1).last() == s[i as int]);
            let worker_id: WorkerId = *self.connected_workers.key_at(i);
            let w: &ConnectedWorkerInfo = self.connected_workers.value_at(i);
            workers.push(
                ConnectedWorkerSummary {
                    worker_id,
                    proto_worker_id: w.proto_worker_id,
                    max_pods: w.max_pods,
                    default_pool: clone_pool(&w.default_pool),
                },
            );
            output.direct(
                worker_id,
                WorkerCommand::CreateNamespace {
                    namespace_id: info.namespace_id.clone(),
                    network,
                },
            );
            let event = WorkerStateCoreEvent::NamespaceAssigned {
                worker_id,
                namespace_id: info.namespace_id.clone(),
            };
            proof {
                use_type_invariant(&self.worker_state.workers);
                self.worker_state.lemma_in_order();
                lemma_room_stays(self.worker_state@, event, self.scheduler@.pending.len());
            }
            self.take(event, &mut output);
            i = i + 1;
            assert(workers@ =~= summaries(s.take(i as int)));
        }
        assert(s.take(i as int) =~= s);
        (
            Ok(
                NamespaceCreationInfo {
                    network,
                    id_registry,
                    timer_config: self.timer_config,
                    connected_workers: workers,
                },
            ),
            output,
        )
    }

    /// Destroys a namespace and takes its segment back. A name that is not there is refused.
    pub fn destroy_namespace(&mut self, namespace_id: &NamespaceId) -> (r: (
        Result<(), ClientError>,
        OrchestratorOutput,
    ))
        requires
            old(self).roomy(),
        ensures
            final(self).roomy(),
            !old(self).namespace_ids@.contains_key(namespace_id.id()) ==> {
                &&& final(self).namespace_ids@ == old(self).namespace_ids@
                &&& *final(self) == (OrchestratorCore {
                    namespace_ids: final(self).namespace_ids,
                    ..*old(self)
                })
                &&& r.0 == Err::<(), ClientError>(ClientError::NamespaceNotFound)
                &&& r.1@ == ClusterOutView::nothing()
            },
            old(self).namespace_ids@.contains_key(namespace_id.id()) ==> {
                &&& r.0 == Ok::<(), ClientError>(())
                &&& final(self).namespace_ids@ == old(self).namespace_ids@.remove(namespace_id.id())
                &&& final(self).namespace_segments@ == old(self).namespace_segments@.remove(
                    namespace_id.id(),
                )
                &&& final(self).namespace_networks@ == old(self).namespace_networks@.remove(
                    namespace_id.id(),
                )
                &&& final(self).active_segment_ids@ == (if old(
                    self,
                ).namespace_segments@.contains_key(namespace_id.id()) {
                    old(self).active_segment_ids@.remove(
                        old(self).namespace_segments@[namespace_id.id()],
                    )
                } else {
                    old(self).active_segment_ids@
                })
                &&& *final(self) == (OrchestratorCore {
                    scheduler: final(self).scheduler,
                    worker_state: final(self).worker_state,
                    namespace_ids: final(self).namespace_ids,
                    namespace_segments: final(self).namespace_segments,
                    namespace_networks: final(self).namespace_networks,
                    active_segment_ids: final(self).active_segment_ids,
                    ..*old(self)
                })
                &&& final(self).routed(r.1) == taken(
                    withdrawn(
                        old(self).routing(),
                        final(self).namespace_ids.seq(),
                        *namespace_id,
                        old(self).connected_workers.seq(),
                    ),
                    final(self).namespace_ids.seq(),
                    WorkerStateCoreEvent::UnregisterNamespaceSegment {
                        namespace_id: *namespace_id,
                    },
                )
            },
    {
        let mut output = OrchestratorOutput::new();
        if self.namespace_ids.remove(namespace_id).is_none() {
            assert(self.namespace_ids@ =~= old(self).namespace_ids@);
            return (Err(ClientError::NamespaceNotFound), output);
        }
        match self.namespace_segments.remove(namespace_id) {
            Some(segment_id) => {
                self.free_segment_id(segment_id);
            },
            None => {},
        }
        let _ = self.namespace_networks.remove(namespace_id);
        let ghost s = self.connected_workers.seq();
        let ghost names = self.namespace_ids.seq();
        let ghost start = self.routed(output);
        let ghost mid = *self;
        let n: usize = self.connected_workers.len();
        let mut i: usize = 0;
        assert(s.take(0) =~= Seq::<(WorkerId, ConnectedWorkerInfo)>::empty());
        while i < n
            invariant
                i <= n,
                n == s.len(),
                s == self.connected_workers.seq(),
                names == self.namespace_ids.seq(),
                self.roomy(),
                self.only_routed(mid),
                self.routed(output) == withdrawn(start, names, *namespace_id, s.take(i as int)),
            decreases n - i,
        {
            assert(s.take(i + 1).drop_last() =~= s.take(i as int));
            assert(s.take(i + 1).last() == s[i as int]);
            let event = WorkerStateCoreEvent::NamespaceUnassigned {
                worker_id: *self.connected_workers.key_at(i),
                namespace_id: namespace_id.clone(),
            };
            proof {
                use_type_invariant(&self.worker_state.workers);
                self.worker_state.lemma_in_order();
                lemma_room_stays(self.worker_state@, event, self.scheduler@.pending.len());
            }
            self.take(event, &mut output);
            i = i + 1;
        }
        assert(s.take(i as int) =~= s);
        let event = WorkerStateCoreEvent::UnregisterNamespaceSegment {
            namespace_id: namespace_id.clone(),
        };
        proof {
            use_type_invariant(&self.worker_state.workers);
            self.worker_state.lemma_in_order();
            lemma_room_stays(self.worker_state@, event, self.scheduler@.pending.len());
        }
        self.take(event, &mut output);
        (Ok(()), output)
    }

    /// The first worker that clients can reach.
    pub fn find_wireguard_worker(&self) -> (r: Option<(WorkerId, WireguardAdapterInfo, &str)>)
        ensures
            (match r {
                Some(f) => Some((f.0, f.1, f.2@)),
                None => None,
            }) == first_wireguard(self.worker_state@.workers),
    {
        self.worker_state.find_wireguard_worker()
    }

    /// Gives out the first segment number, from the place after the last one on, that is free.
    fn alloc_segment_id(&mut self) -> (r: u16)
        requires
            exists|id: u16| usable(old(self).active_segment_ids@, id),
        ensures
            first_usable(old(self).active_segment_ids@, old(self).next_segment_id, r),
            *final(self) == (OrchestratorCore {
                next_segment_id: place(r, 1),
                active_segment_ids: final(self).active_segment_ids,
                ..*old(self)
            }),
            final(self).active_segment_ids@ == old(self).active_segment_ids@.insert(r, ()),
    {
        let id: u16 = find_segment(&self.active_segment_ids, self.next_segment_id);
        self.next_segment_id = following(id);
        self.active_segment_ids.insert(id, ());
        id
    }

    /// Takes a segment number back.
    fn free_segment_id(&mut self, id: u16)
        ensures
            *final(self) == (OrchestratorCore {
                active_segment_ids: final(self).active_segment_ids,
                ..*old(self)
            }),
            final(self).active_segment_ids@ == old(self).active_segment_ids@.remove(id),
    {
        let _ = self.active_segment_ids.remove(&id);
    }

    /// What a client learns of all workers.
    pub fn list_workers(&self) -> (r: Vec<WorkerQueryInfo>)
        requires
            self.roomy(),
        ensures
            r@.len() == self.worker_state@.workers.len(),
            forall|i: int|
                0 <= i < r@.len() ==> (#[trigger] r@[i])@ == query_of(
                    self.worker_state@.workers[i].0,
                    self.worker_state@.workers[i].1,
                ),
    {
        self.worker_state.query_all_workers()
    }

    /// What a client learns of a worker.
    pub fn get_worker(&self, worker_id: WorkerId) -> (r: Result<WorkerQueryInfo, ClientError>)
        requires
            self.roomy(),
        ensures
            match r {
                Ok(q) => self.worker_state@.has(worker_id) && q@ == query_of(
                    worker_id,
                    self.worker_state@.get(worker_id),
                ),
                Err(e) => !self.worker_state@.has(worker_id) && e == ClientError::WorkerNotFound,
            },
    {
        match self.worker_state.query_worker(worker_id) {
            Some(q) => Ok(q),
            None => Err(ClientError::WorkerNotFound),
        }
    }

    /// Which namespaces there are.
    pub fn namespace_ids(&self) -> (r: &SortedMap<NamespaceId, ()>)
        ensures
            *r == self.namespace_ids,
    {
        &self.namespace_ids
    }

    /// Hands a command of a client to a namespace. A name that is not there is refused.
    fn forward(&self, namespace_id: &NamespaceId, command: ClientCommand) -> (r: (
        Result<(), ClientError>,
        OrchestratorOutput,
    ))
        ensures
            (r.0, r.1@) == forwarded(self.namespace_ids@, *namespace_id, command),
    {
        let mut output = OrchestratorOutput::new();
        if !self.namespace_ids.contains_key(namespace_id) {
            return (Err(ClientError::NamespaceNotFound), output);
        }
        output.tell(namespace_id.clone(), OrchestratorToNamespace::ClientCommand(command));
        (Ok(()), output)
    }

    /// Sets the spec of a namespace.
    pub fn update_namespace(&self, namespace_id: &NamespaceId, spec: NamespaceSpec) -> (r: (
        Result<(), ClientError>,
        OrchestratorOutput,
    ))
        ensures
            (r.0, r.1@) == forwarded(
                self.namespace_ids@,
                *namespace_id,
                ClientCommand::UpdateSpec(spec),
            ),
    {
        self.forward(namespace_id, ClientCommand::UpdateSpec(spec))
    }

    /// Changes part of the spec of a namespace.
    pub fn patch_namespace(&self, namespace_id: &NamespaceId, patch: NamespacePatch) -> (r: (
        Result<(), ClientError>,
        OrchestratorOutput,
    ))
        ensures
            (r.0, r.1@) == forwarded(
                self.namespace_ids@,
                *namespace_id,
                ClientCommand::PatchSpec(patch),
            ),
    {
        self.forward(namespace_id, ClientCommand::PatchSpec(patch))
    }

    /// Lets a client into the network of a namespace, through the first worker that can be reached.
    /// The namespace finds it an address: see [`connect_reply`].
    pub fn connect_network(&self, namespace_id: &NamespaceId, client_public_key: [u8; 32]) -> (r: (
        Result<ConnectTarget, ClientError>,
        OrchestratorOutput,
    ))
        ensures
            match first_tunnel(self.worker_state@.workers) {
                Some(t) => if self.namespace_ids@.contains_key(namespace_id.id()) {
                    &&& r.0 matches Ok(target)
                    &&& target.worker_id == t.0
                    &&& target.server_public_key == t.1.public_key
                    &&& target.endpoint@ == host_port(t.2, t.1.listen_port)
                    &&& r.1@ == ClusterOutView::nothing().told(
                        *namespace_id,
                        OrchestratorToNamespace::ClientCommand(
                            ClientCommand::Connect { client_public_key, worker_id: t.0 },
                        ),
                    )
                } else {
                    &&& r.0 == Err::<ConnectTarget, ClientError>(ClientError::NamespaceNotFound)
                    &&& r.1@ == ClusterOutView::nothing()
                },
                None => {
                    &&& r.0 == Err::<ConnectTarget, ClientError>(
                        if self.namespace_ids@.contains_key(namespace_id.id()) {
                            ClientError::NoTunnelWorker
                        } else {
                            ClientError::NamespaceNotFound
                        },
                    )
                    &&& r.1@ == ClusterOutView::nothing()
                },
            },
    {
        let mut output = OrchestratorOutput::new();
        if !self.namespace_ids.contains_key(namespace_id) {
            return (Err(ClientError::NamespaceNotFound), output);
        }
        match self.worker_state.find_tunnel_worker() {
            Some((worker_id, tunnel, endpoint)) => {
                output.tell(
                    namespace_id.clone(),
                    OrchestratorToNamespace::ClientCommand(
                        ClientCommand::Connect { client_public_key, worker_id },
                    ),
                );
                let target = ConnectTarget {
                    worker_id,
                    server_public_key: tunnel.public_key,
                    endpoint: host_port_text(endpoint, tunnel.listen_port),
                };
                (Ok(target), output)
            },
            None => (Err(ClientError::NoTunnelWorker), output),
        }
    }

    /// Takes a client out of the network of a namespace.
    pub fn disconnect_network(&self, namespace_id: &NamespaceId, client_public_key: [u8; 32]) -> (r:
        (Result<(), ClientError>, OrchestratorOutput))
        ensures
            (r.0, r.1@) == forwarded(
                self.namespace_ids@,
                *namespace_id,
                ClientCommand::Disconnect { client_public_key },
            ),
    {
        self.forward(namespace_id, ClientCommand::Disconnect { client_public_key })
    }
}

/// A command of a client reaches its namespace, if that is there.
pub open spec fn forwarded(
    namespaces: Map<Seq<char>, ()>,
    namespace_id: NamespaceId,
    command: ClientCommand,
) -> (Result<(), ClientError>, ClusterOutView) {
    if namespaces.contains_key(namespace_id.id()) {
        (
            Ok(()),
            ClusterOutView::nothing().told(
                namespace_id,
                OrchestratorToNamespace::ClientCommand(command),
            ),
        )
    } else {
        (Err(ClientError::NamespaceNotFound), ClusterOutView::nothing())
    }
}

/// What a client is told once its namespace has found it an address, or has none left.
pub fn connect_reply(
    target: ConnectTarget,
    client_ip: Option<u32>,
    subnet: u32,
    prefix_len: u8,
) -> (r: Result<ConnectResult, ClientError>)
    ensures
        match client_ip {
            Some(ip) => {
                &&& r matches Ok(c)
                &&& c.server_public_key == target.server_public_key
                &&& c.endpoint == target.endpoint
                &&& c.client_ip == ip
                &&& c.subnet@ == dotted(subnet) + "/"@ + decimal(prefix_len as nat)
            },
            None => r == Err::<ConnectResult, ClientError>(ClientError::IpExhausted),
        },
{
    match client_ip {
        Some(ip) => {
            let mut text: String = dotted_text(subnet);
            text.append("/");
            push_decimal(&mut text, prefix_len as u64);
            Ok(
                ConnectResult {
                    server_public_key: target.server_public_key,
                    endpoint: target.endpoint,
                    client_ip: ip,
                    subnet: text,
                },
            )
        },
        None => Err(ClientError::IpExhausted),
    }
}

/// The segment numbers in use are those of the namespaces, and no two namespaces share one.
pub open spec fn segments_sound(segments: Map<Seq<char>, u16>, active: Map<u16, ()>) -> bool {
    &&& forall|n: Seq<char>| #[trigger]
        segments.contains_key(n) ==> active.contains_key(segments[n]) && segments[n] != 0
    &&& forall|n: Seq<char>, m: Seq<char>|
        #![trigger segments.contains_key(n), segments.contains_key(m)]
        segments.contains_key(n) && segments.contains_key(m) && segments[n] == segments[m]
            ==> n == m
}

/// A new namespace gets a segment that no other has.
pub proof fn law_creation_keeps_segments_apart(
    segments: Map<Seq<char>, u16>,
    active: Map<u16, ()>,
    next: u16,
    name: Seq<char>,
    segment_id: u16,
)
    requires
        segments_sound(segments, active),
        first_usable(active, next, segment_id),
    ensures
        segments_sound(segments.insert(name, segment_id), active.insert(segment_id, ())),
{
}

/// A segment that is taken back is the segment of no namespace.
pub proof fn law_destruction_keeps_segments_apart(
    segments: Map<Seq<char>, u16>,
    active: Map<u16, ()>,
    name: Seq<char>,
)
    requires
        segments_sound(segments, active),
        segments.contains_key(name),
    ensures
        segments_sound(segments.remove(name), active.remove(segments[name])),
{
}

/// That namespaces part from a worker that nothing is known of changes neither the scheduler nor what
/// is known of the workers.
proof fn lemma_parting_is_told(
    r: Routing,
    namespaces: Seq<(NamespaceId, ())>,
    worker_id: WorkerId,
    some: Seq<(NamespaceId, ())>,
)
    requires
        r.sched.orderly(),
        !r.ws.has(worker_id),
    ensures
        parted_from_each(r, namespaces, worker_id, some).sched == r.sched,
        parted_from_each(r, namespaces, worker_id, some).ws == r.ws,
    decreases some.len(),
{
    if some.len() > 0 {
        lemma_parting_is_told(r, namespaces, worker_id, some.drop_last());
    }
}

/// When a worker has left the scheduler does not list it, so nothing is granted to it until it is
/// back, and nothing is known of it any more.
pub proof fn law_departed_worker_is_forgotten(
    before: OrchestratorCore,
    worker_id: WorkerId,
    after: Routing,
)
    requires
        after == parted_from_each(
            taken(
                before.routing(),
                before.namespace_ids.seq(),
                WorkerStateCoreEvent::Disconnected { worker_id },
            ),
            before.namespace_ids.seq(),
            worker_id,
            before.namespace_ids.seq(),
        ),
        before.scheduler@.orderly(),
        before.scheduler@.listed_by_number(),
        increasing(before.worker_state@.workers),
    ensures
        after.sched.unlisted(worker_id),
        after.sched.listed_by_number(),
        !after.ws.has(worker_id),
{
    let mid = taken(
        before.routing(),
        before.namespace_ids.seq(),
        WorkerStateCoreEvent::Disconnected { worker_id },
    );
    law_gone_worker_is_unlisted(before.routing(), before.namespace_ids.seq(), worker_id);
    lemma_parting_is_told(mid, before.namespace_ids.seq(), worker_id, before.namespace_ids.seq());
}

} // verus!
