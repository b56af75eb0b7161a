//! What is known of each connected worker.
use vstd::prelude::*;

use crate::engine::protocol::{peer_views, PeerView, WorkerPeerInfo};
use crate::engine::types::{SchedulerCoreInput, WorkerCandidate};
use crate::ids::NamespaceId;
use crate::orchestrator::networking::{host_port, host_port_text, is_blank};
use crate::orchestrator::PoolInfo;
use crate::sm::WorkerId;
use crate::sorted_map::{
    all_values, as_map, erase, has_key, increasing, lemma_all_values, lemma_mapped, mapped,
    position, upsert, Key, SortedMap,
};
use crate::types::{PressureBand, PressureBands};

verus! {

/// Where a worker listens for the tunnels of its peers.
#[derive(Debug, Clone, Copy, PartialEq, Eq)]
pub struct WorkerTunnelInfo {
    pub listen_port: u16,
    pub public_key: [u8; 32],
}

/// Where a worker listens for the connections of clients.
#[derive(Debug, Clone, Copy, PartialEq, Eq)]
pub struct WireguardAdapterInfo {
    pub listen_port: u16,
    pub public_key: [u8; 32],
}

/// What a worker can do.
#[derive(Debug, PartialEq, Eq)]
pub struct WorkerCapabilities {
    pub has_kvm: bool,
    pub has_containerd: bool,
    pub available_adapters: Vec<String>,
    pub max_pods: u32,
    pub available_memory_mb: u64,
    pub public_endpoint: String,
    pub pools: Vec<PoolInfo>,
}

/// What a measurement makes of a band: the next band for each present one.
#[derive(Debug, Clone, Copy, PartialEq, Eq, Structural)]
pub struct BandSteps {
    pub from_normal: PressureBand,
    pub from_elevated: PressureBand,
    pub from_high: PressureBand,
    pub from_critical: PressureBand,
}

impl BandSteps {
    pub open spec fn after(self, band: PressureBand) -> PressureBand {
        match band {
            PressureBand::Normal => self.from_normal,
            PressureBand::Elevated => self.from_elevated,
            PressureBand::High => self.from_high,
            PressureBand::Critical => self.from_critical,
        }
    }

    fn step(&self, band: PressureBand) -> (r: PressureBand)
        ensures
            r == self.after(band),
    {
        match band {
            PressureBand::Normal => self.from_normal,
            PressureBand::Elevated => self.from_elevated,
            PressureBand::High => self.from_high,
            PressureBand::Critical => self.from_critical,
        }
    }
}

/// How hard a worker is pressed, as last measured.
#[derive(Debug, Clone, Copy, PartialEq, Eq, Structural)]
pub struct WorkerPsi {
    pub compute: BandSteps,
    pub memory: BandSteps,
    pub storage: BandSteps,
}

/// The bands after a measurement. Without one they stay.
pub open spec fn repressed(psi: Option<WorkerPsi>, bands: PressureBands) -> PressureBands {
    match psi {
        Some(p) => PressureBands {
            memory: p.memory.after(bands.memory),
            compute: p.compute.after(bands.compute),
            storage: p.storage.after(bands.storage),
        },
        None => bands,
    }
}

/// What happens to workers.
pub enum WorkerStateCoreEvent {
    PressureUpdate { worker_id: WorkerId, psi: WorkerPsi },
    PoolCapacityUpdate { worker_id: WorkerId, pools: Vec<PoolInfo> },
    ConditionUpdate { worker_id: WorkerId, key: String, active: bool, message: String },
    Connected {
        worker_id: WorkerId,
        capabilities: WorkerCapabilities,
        tunnel_info: Option<WorkerTunnelInfo>,
        wireguard_info: Option<WireguardAdapterInfo>,
        proto_worker_id: WorkerId,
    },
    Disconnected { worker_id: WorkerId },
    NamespaceAssigned { worker_id: WorkerId, namespace_id: NamespaceId },
    NamespaceUnassigned { worker_id: WorkerId, namespace_id: NamespaceId },
    RegisterNamespaceSegment { namespace_id: NamespaceId, segment_id: u16 },
    UnregisterNamespaceSegment { namespace_id: NamespaceId },
    PodCountChange { worker_id: WorkerId, delta: i32 },
}

/// What comes of it.
pub struct WorkerStateEffects {
    pub scheduler_updates: Vec<SchedulerCoreInput>,
    /// The workers as their peers are to see them, if that has changed.
    pub worker_registry_broadcast: Option<Vec<WorkerPeerInfo>>,
}

#[verifier::ext_equal]
pub struct WorkerStateEffectsView {
    pub scheduler_updates: Seq<SchedulerCoreInput>,
    pub worker_registry_broadcast: Option<Seq<PeerView>>,
}

impl WorkerStateEffectsView {
    pub open spec fn nothing() -> WorkerStateEffectsView {
        WorkerStateEffectsView { scheduler_updates: seq![], worker_registry_broadcast: None }
    }
}

impl WorkerStateEffects {
    pub open spec fn view(&self) -> WorkerStateEffectsView {
        WorkerStateEffectsView {
            scheduler_updates: self.scheduler_updates@,
            worker_registry_broadcast: match self.worker_registry_broadcast {
                Some(peers) => Some(peer_views(peers@)),
                None => None,
            },
        }
    }

    fn nothing() -> (r: Self)
        ensures
            r@ == WorkerStateEffectsView::nothing(),
    {
        let r = WorkerStateEffects {
            scheduler_updates: Vec::new(),
            worker_registry_broadcast: None,
        };
        assert(r@ =~= WorkerStateEffectsView::nothing());
        r
    }

    fn of_update(update: SchedulerCoreInput) -> (r: Self)
        ensures
            r@ == (WorkerStateEffectsView {
                scheduler_updates: seq![update],
                worker_registry_broadcast: None,
            }),
    {
        let mut updates: Vec<SchedulerCoreInput> = Vec::new();
        updates.push(update);
        let r = WorkerStateEffects {
            scheduler_updates: updates,
            worker_registry_broadcast: None,
        };
        assert(r@.scheduler_updates =~= seq![update]);
        r
    }
}

/// One worker.
pub struct TrackedWorkerStateCore {
    pub pressure_bands: PressureBands,
    pub psi: Option<WorkerPsi>,
    pub capabilities: WorkerCapabilities,
    pub conditions: SortedMap<String, bool>,
    pub pod_count: usize,
    pub tunnel_info: Option<WorkerTunnelInfo>,
    pub wireguard_info: Option<WireguardAdapterInfo>,
    pub proto_worker_id: WorkerId,
    pub segments: SortedMap<u16, ()>,
}

#[verifier::ext_equal]
pub struct TrackedView {
    pub pressure_bands: PressureBands,
    pub psi: Option<WorkerPsi>,
    pub capabilities: WorkerCapabilities,
    pub conditions: Map<Seq<char>, bool>,
    pub pod_count: usize,
    pub tunnel_info: Option<WorkerTunnelInfo>,
    pub wireguard_info: Option<WireguardAdapterInfo>,
    pub proto_worker_id: WorkerId,
    pub segments: Seq<(u16, ())>,
}

impl TrackedView {
    /// A worker that has just connected.
    pub open spec fn fresh(
        capabilities: WorkerCapabilities,
        tunnel_info: Option<WorkerTunnelInfo>,
        wireguard_info: Option<WireguardAdapterInfo>,
        proto_worker_id: WorkerId,
    ) -> TrackedView {
        TrackedView {
            pressure_bands: PressureBands {
                memory: PressureBand::Normal,
                compute: PressureBand::Normal,
                storage: PressureBand::Normal,
            },
            psi: None,
            capabilities,
            conditions: Map::empty(),
            pod_count: 0,
            tunnel_info,
            wireguard_info,
            proto_worker_id,
            segments: seq![],
        }
    }

    /// The worker as the scheduler sees it.
    pub open spec fn candidate(self, worker_id: WorkerId) -> WorkerCandidate {
        WorkerCandidate {
            worker_id,
            max_pressure_band: self.pressure_bands.worst(),
            pod_count: self.pod_count,
            draining: self.conditions.contains_key("draining"@) && self.conditions["draining"@],
            active: true,
        }
    }

    /// The worker as its peers see it, if they can reach it.
    pub open spec fn peer(self) -> Option<PeerView> {
        match self.tunnel_info {
            Some(t) => if self.capabilities.public_endpoint@.len() == 0 {
                None
            } else {
                Some(
                    PeerView {
                        worker_id: self.proto_worker_id,
                        endpoint: host_port(self.capabilities.public_endpoint@, t.listen_port),
                        public_key: t.public_key,
                        segments: self.segments.map_values(|e: (u16, ())| e.0),
                    },
                )
            },
            None => None,
        }
    }

    /// After a measurement.
    pub open spec fn measured(self, psi: WorkerPsi) -> TrackedView {
        TrackedView {
            psi: Some(psi),
            pressure_bands: repressed(Some(psi), self.pressure_bands),
            ..self
        }
    }

    /// With more or fewer pods. There are never fewer than none.
    pub open spec fn counted(self, delta: i32) -> TrackedView {
        TrackedView {
            pod_count: if self.pod_count + delta < 0 {
                0
            } else {
                (self.pod_count + delta) as usize
            },
            pressure_bands: repressed(self.psi, self.pressure_bands),
            ..self
        }
    }
}

impl TrackedWorkerStateCore {
    pub open spec fn view(&self) -> TrackedView {
        TrackedView {
            pressure_bands: self.pressure_bands,
            psi: self.psi,
            capabilities: self.capabilities,
            conditions: self.conditions@,
            pod_count: self.pod_count,
            tunnel_info: self.tunnel_info,
            wireguard_info: self.wireguard_info,
            proto_worker_id: self.proto_worker_id,
            segments: self.segments.seq(),
        }
    }

    fn new(
        capabilities: WorkerCapabilities,
        tunnel_info: Option<WorkerTunnelInfo>,
        wireguard_info: Option<WireguardAdapterInfo>,
        proto_worker_id: WorkerId,
    ) -> (r: Self)
        ensures
            r@ == TrackedView::fresh(capabilities, tunnel_info, wireguard_info, proto_worker_id),
    {
        let r = TrackedWorkerStateCore {
            pressure_bands: PressureBands {
                memory: PressureBand::Normal,
                compute: PressureBand::Normal,
                storage: PressureBand::Normal,
            },
            psi: None,
            capabilities,
            conditions: SortedMap::new(),
            pod_count: 0,
            tunnel_info,
            wireguard_info,
            proto_worker_id,
            segments: SortedMap::new(),
        };
        assert(r@ =~= TrackedView::fresh(capabilities, tunnel_info, wireguard_info, proto_worker_id));
        r
    }

    /// The worker as the scheduler sees it.
    fn to_candidate(&self, worker_id: WorkerId) -> (r: WorkerCandidate)
        ensures
            r == self@.candidate(worker_id),
    {
        let draining: bool = match self.conditions.get(&"draining".to_owned()) {
            Some(d) => *d,
            None => false,
        };
        WorkerCandidate {
            worker_id,
            max_pressure_band: self.pressure_bands.max_band(),
            pod_count: self.pod_count,
            draining,
            active: true,
        }
    }

    /// Works the last measurement in again.
    fn recompute_pressure_from_psi(&mut self)
        ensures
            final(self)@ == (TrackedView {
                pressure_bands: repressed(old(self)@.psi, old(self)@.pressure_bands),
                ..old(self)@
            }),
    {
        if let Some(psi) = self.psi {
            self.pressure_bands = PressureBands {
                memory: psi.memory.step(self.pressure_bands.memory),
                compute: psi.compute.step(self.pressure_bands.compute),
                storage: psi.storage.step(self.pressure_bands.storage),
            };
        }
        assert(self@ =~= TrackedView {
            pressure_bands: repressed(old(self)@.psi, old(self)@.pressure_bands),
            ..old(self)@
        });
    }

    /// The worker as its peers see it, if they can reach it.
    fn to_peer_info(&self) -> (r: Option<WorkerPeerInfo>)
        ensures
            match r {
                Some(p) => self@.peer() == Some(p@),
                None => self@.peer() is None,
            },
    {
        let tunnel: WorkerTunnelInfo = match self.tunnel_info {
            Some(t) => t,
            None => {
                return None;
            },
        };
        if is_blank(self.capabilities.public_endpoint.as_str()) {
            return None;
        }
        let n: usize = self.segments.len();
        let mut segments: Vec<u16> = Vec::new();
        let ghost s = self.segments.seq();
        let mut i: usize = 0;
        while i < n
            invariant
                i <= n,
                n == s.len(),
                s == self.segments.seq(),
                segments@ == s.take(i as int).map_values(|e: (u16, ())| e.0),
            decreases n - i,
        {
            segments.push(*self.segments.key_at(i));
            i = i + 1;
            assert(segments@ =~= s.take(i as int).map_values(|e: (u16, ())| e.0));
        }
        assert(s.take(i as int) =~= s);
        let peer = WorkerPeerInfo {
            worker_id: self.proto_worker_id,
            endpoint: host_port_text(self.capabilities.public_endpoint.as_str(), tunnel.listen_port),
            public_key: tunnel.public_key,
            segments,
        };
        assert(peer@ =~= self@.peer()->0);
        Some(peer)
    }
}

/// A worker as a client sees it.
pub struct WorkerQueryInfo {
    pub worker_id: WorkerId,
    pub max_pods: u32,
    pub available_memory_mb: u64,
    pub active_pods: u32,
    pub conditions: SortedMap<String, bool>,
}

/// A worker as a client sees it, with its conditions as a map.
#[verifier::ext_equal]
pub struct WorkerQueryView {
    pub worker_id: WorkerId,
    pub max_pods: u32,
    pub available_memory_mb: u64,
    pub active_pods: nat,
    pub conditions: Map<Seq<char>, bool>,
}

impl WorkerQueryInfo {
    pub open spec fn view(&self) -> WorkerQueryView {
        WorkerQueryView {
            worker_id: self.worker_id,
            max_pods: self.max_pods,
            available_memory_mb: self.available_memory_mb,
            active_pods: self.active_pods as nat,
            conditions: self.conditions@,
        }
    }
}

/// What a client learns of a worker.
pub open spec fn query_of(worker_id: WorkerId, state: TrackedView) -> WorkerQueryView {
    WorkerQueryView {
        worker_id,
        max_pods: state.capabilities.max_pods,
        available_memory_mb: state.capabilities.available_memory_mb,
        active_pods: state.pod_count as nat,
        conditions: state.conditions,
    }
}

/// The workers as their peers see them.
pub open spec fn registry(workers: Seq<(WorkerId, TrackedView)>) -> Seq<PeerView>
    decreases workers.len(),
{
    if workers.len() == 0 {
        seq![]
    } else {
        let rest = registry(workers.drop_last());
        match workers.last().1.peer() {
            Some(p) => rest.push(p),
            None => rest,
        }
    }
}

/// The first worker that clients can reach: its number, where it listens, and its address.
pub open spec fn first_wireguard(workers: Seq<(WorkerId, TrackedView)>) -> Option<
    (WorkerId, WireguardAdapterInfo, Seq<char>),
>
    decreases workers.len(),
{
    if workers.len() == 0 {
        None
    } else {
        let t = workers[0].1;
        match t.wireguard_info {
            Some(w) => if t.capabilities.public_endpoint@.len() == 0 {
                first_wireguard(workers.skip(1))
            } else {
                Some((workers[0].0, w, t.capabilities.public_endpoint@))
            },
            None => first_wireguard(workers.skip(1)),
        }
    }
}

/// The first worker that peers can reach: its number, where it listens, and its address.
pub open spec fn first_tunnel(workers: Seq<(WorkerId, TrackedView)>) -> Option<
    (WorkerId, WorkerTunnelInfo, Seq<char>),
>
    decreases workers.len(),
{
    if workers.len() == 0 {
        None
    } else {
        let t = workers[0].1;
        match t.tunnel_info {
            Some(w) => if t.capabilities.public_endpoint@.len() == 0 {
                first_tunnel(workers.skip(1))
            } else {
                Some((workers[0].0, w, t.capabilities.public_endpoint@))
            },
            None => first_tunnel(workers.skip(1)),
        }
    }
}

/// What is known of the workers.
#[verifier::ext_equal]
pub struct WorkerStateView {
    pub workers: Seq<(WorkerId, TrackedView)>,
    pub namespace_segments: Map<Seq<char>, u16>,
}

impl WorkerStateView {
    pub open spec fn has(self, worker_id: WorkerId) -> bool {
        has_key(self.workers, worker_id)
    }

    pub open spec fn get(self, worker_id: WorkerId) -> TrackedView {
        as_map(self.workers)[worker_id]
    }

    /// With one worker as given.
    pub open spec fn with(self, worker_id: WorkerId, state: TrackedView) -> WorkerStateView {
        WorkerStateView { workers: upsert(self.workers, worker_id, state), ..self }
    }

    /// No worker has more pods than can be counted.
    pub open spec fn countable(self) -> bool {
        forall|i: int| 0 <= i < self.workers.len() ==> (#[trigger] self.workers[i]).1.pod_count
            <= i32::MAX
    }

    /// Whether an event can be taken in: the pods of its worker can still be counted.
    pub open spec fn can_take(self, event: WorkerStateCoreEvent) -> bool {
        event matches WorkerStateCoreEvent::PodCountChange { worker_id, delta } ==> self.has(
            worker_id,
        ) ==> self.get(worker_id).pod_count + delta <= i32::MAX
    }

    /// Tells all workers of each other.
    pub open spec fn announced(self) -> WorkerStateEffectsView {
        WorkerStateEffectsView {
            scheduler_updates: seq![],
            worker_registry_broadcast: Some(registry(self.workers)),
        }
    }

    /// What is known after an event, and what comes of it.
    pub open spec fn next(self, event: WorkerStateCoreEvent) -> (
        WorkerStateView,
        WorkerStateEffectsView,
    ) {
        let unmoved = (self, WorkerStateEffectsView::nothing());
        match event {
            WorkerStateCoreEvent::PressureUpdate { worker_id, psi } => if self.has(worker_id) {
                let state = self.get(worker_id).measured(psi);
                (
                    self.with(worker_id, state),
                    WorkerStateEffectsView {
                        scheduler_updates: seq![
                            SchedulerCoreInput::WorkerUpdate(worker_id, state.candidate(worker_id)),
                        ],
                        worker_registry_broadcast: None,
                    },
                )
            } else {
                unmoved
            },
            WorkerStateCoreEvent::PoolCapacityUpdate { worker_id, pools } => if self.has(
                worker_id,
            ) {
                let state = self.get(worker_id);
                (
                    self.with(
                        worker_id,
                        TrackedView {
                            capabilities: WorkerCapabilities { pools, ..state.capabilities },
                            ..state
                        },
                    ),
                    WorkerStateEffectsView::nothing(),
                )
            } else {
                unmoved
            },
            WorkerStateCoreEvent::ConditionUpdate { worker_id, key, active, .. } => if self.has(
                worker_id,
            ) {
                let state = self.get(worker_id);
                let after = TrackedView {
                    conditions: state.conditions.insert(key@, active),
                    ..state
                };
                (
                    self.with(worker_id, after),
                    WorkerStateEffectsView {
                        scheduler_updates: seq![
                            SchedulerCoreInput::WorkerUpdate(worker_id, after.candidate(worker_id)),
                        ],
                        worker_registry_broadcast: None,
                    },
                )
            } else {
                unmoved
            },
            WorkerStateCoreEvent::Connected {
                worker_id,
                capabilities,
                tunnel_info,
                wireguard_info,
                proto_worker_id,
            } => {
                let state = TrackedView::fresh(
                    capabilities,
                    tunnel_info,
                    wireguard_info,
                    proto_worker_id,
                );
                let after = self.with(worker_id, state);
                (
                    after,
                    WorkerStateEffectsView {
                        scheduler_updates: seq![
                            SchedulerCoreInput::WorkerUpdate(worker_id, state.candidate(worker_id)),
                        ],
                        worker_registry_broadcast: Some(registry(after.workers)),
                    },
                )
            },
            WorkerStateCoreEvent::Disconnected { worker_id } => {
                let after = WorkerStateView { workers: erase(self.workers, worker_id), ..self };
                (
                    after,
                    WorkerStateEffectsView {
                        scheduler_updates: seq![SchedulerCoreInput::WorkerRemoved(worker_id)],
                        worker_registry_broadcast: Some(registry(after.workers)),
                    },
                )
            },
            WorkerStateCoreEvent::NamespaceAssigned { worker_id, namespace_id } => {
                let name = namespace_id.id();
                if self.has(worker_id) && self.namespace_segments.contains_key(name) && !has_key(
                    self.get(worker_id).segments,
                    self.namespace_segments[name],
                ) {
                    let state = self.get(worker_id);
                    let after = self.with(
                        worker_id,
                        TrackedView {
                            segments: upsert(state.segments, self.namespace_segments[name], ()),
                            ..state
                        },
                    );
                    (after, after.announced())
                } else {
                    unmoved
                }
            },
            WorkerStateCoreEvent::NamespaceUnassigned { worker_id, namespace_id } => {
                let name = namespace_id.id();
                if self.has(worker_id) && self.namespace_segments.contains_key(name) && has_key(
                    self.get(worker_id).segments,
                    self.namespace_segments[name],
                ) {
                    let state = self.get(worker_id);
                    let after = self.with(
                        worker_id,
                        TrackedView {
                            segments: erase(state.segments, self.namespace_segments[name]),
                            ..state
                        },
                    );
                    (after, after.announced())
                } else {
                    unmoved
                }
            },
            WorkerStateCoreEvent::RegisterNamespaceSegment { namespace_id, segment_id } => (
                WorkerStateView {
                    namespace_segments: self.namespace_segments.insert(
                        namespace_id.id(),
                        segment_id,
                    ),
                    ..self
                },
                WorkerStateEffectsView::nothing(),
            ),
            WorkerStateCoreEvent::UnregisterNamespaceSegment { namespace_id } => (
                WorkerStateView {
                    namespace_segments: self.namespace_segments.remove(namespace_id.id()),
                    ..self
                },
                WorkerStateEffectsView::nothing(),
            ),
            WorkerStateCoreEvent::PodCountChange { worker_id, delta } => if self.has(worker_id) {
                let state = self.get(worker_id).counted(delta);
                (
                    self.with(worker_id, state),
                    WorkerStateEffectsView {
                        scheduler_updates: seq![
                            SchedulerCoreInput::WorkerUpdate(worker_id, state.candidate(worker_id)),
                        ],
                        worker_registry_broadcast: None,
                    },
                )
            } else {
                unmoved
            },
        }
    }
}

/// Tracks the workers.
pub struct WorkerStateCore {
    pub(crate) workers: SortedMap<WorkerId, TrackedWorkerStateCore>,
    pub(crate) namespace_segments: SortedMap<NamespaceId, u16>,
}

/// The contents of one worker's entry.
pub open spec fn contents() -> spec_fn(TrackedWorkerStateCore) -> TrackedView {
    |t: TrackedWorkerStateCore| t@
}

impl WorkerStateCore {
    pub closed spec fn view(&self) -> WorkerStateView {
        WorkerStateView {
            workers: mapped(self.workers.seq(), contents()),
            namespace_segments: self.namespace_segments@,
        }
    }

    /// The workers stand in order, since the table that holds them does.
    pub(crate) proof fn lemma_in_order(&self)
        requires
            self.workers.ordered(),
        ensures
            increasing(self@.workers),
    {
        lemma_mapped(
            self.workers.seq(),
            contents(),
            WorkerId(0),
            self.workers@[WorkerId(0)],
        );
    }

    pub fn new() -> (r: Self)
        ensures
            r@ == (WorkerStateView { workers: seq![], namespace_segments: Map::empty() }),
    {
        let r = WorkerStateCore { workers: SortedMap::new(), namespace_segments: SortedMap::new() };
        assert(r@ =~= WorkerStateView { workers: seq![], namespace_segments: Map::empty() });
        r
    }

    /// Changes a worker, if it is there.
    fn revise<R, F: FnOnce(TrackedWorkerStateCore) -> (TrackedWorkerStateCore, R)>(
        &mut self,
        worker_id: WorkerId,
        change: F,
    ) -> (r: Option<R>)
        requires
            old(self)@.has(worker_id) ==> forall|t: TrackedWorkerStateCore|
                t@ == old(self)@.get(worker_id) ==> #[trigger] call_requires(change, (t,)),
        ensures
            match r {
                Some(x) => {
                    &&& old(self)@.has(worker_id)
                    &&& exists|t: TrackedWorkerStateCore, u: TrackedWorkerStateCore|
                        t@ == old(self)@.get(worker_id) && #[trigger] call_ensures(
                            change,
                            (t,),
                            (u, x),
                        ) && final(self)@ == old(self)@.with(worker_id, u@)
                },
                None => !old(self)@.has(worker_id) && final(self)@ == old(self)@,
            },
    {
        let n: usize = self.workers.len();
        let ghost s = self.workers.seq();
        let ghost m = self.workers@;
        proof {
            assert(m == as_map(s));
            lemma_mapped(s, contents(), worker_id, m[worker_id]);
        }
        let r = self.workers.modify(&worker_id, change);
        proof {
            if r is Some {
                let u = self.workers@[worker_id];
                lemma_mapped(s, contents(), worker_id, u);
                assert(self.workers.seq() == upsert(s, worker_id, u));
                assert(self@.workers == upsert(mapped(s, contents()), worker_id, u@));
                assert(call_ensures(change, (m[worker_id],), (u, r->0)));
            }
        }
        r
    }

    /// The segment of a namespace.
    fn segment_of(&self, namespace_id: &NamespaceId) -> (r: Option<u16>)
        ensures
            r == (if self@.namespace_segments.contains_key(namespace_id.id()) {
                Some(self@.namespace_segments[namespace_id.id()])
            } else {
                None
            }),
    {
        match self.namespace_segments.get(namespace_id) {
            Some(s) => Some(*s),
            None => None,
        }
    }

    /// The workers as their peers see them.
    pub fn build_worker_registry(&self) -> (r: Vec<WorkerPeerInfo>)
        ensures
            peer_views(r@) == registry(self@.workers),
    {
        let ghost s = self@.workers;
        let n: usize = self.workers.len();
        let mut out: Vec<WorkerPeerInfo> = Vec::new();
        let mut i: usize = 0;
        assert(s.take(0) =~= Seq::<(WorkerId, TrackedView)>::empty());
        assert(peer_views(out@) =~= seq![]);
        while i < n
            invariant
                i <= n,
                n == s.len(),
                s == self@.workers,
                n == self.workers.seq().len(),
                peer_views(out@) == registry(s.take(i as int)),
            decreases n - i,
        {
            assert(s.take(i + 1).drop_last() =~= s.take(i as int));
            assert(s.take(i + 1).last() == s[i as int]);
            let ghost mid = peer_views(out@);
            if let Some(p) = self.workers.value_at(i).to_peer_info() {
                out.push(p);
                assert(peer_views(out@) =~= mid.push(p@));
            }
            i = i + 1;
        }
        assert(s.take(i as int) =~= s);
        out
    }

    /// Takes in one event, and says what comes of it.
    pub fn process(&mut self, event: WorkerStateCoreEvent) -> (r: WorkerStateEffects)
        requires
            old(self)@.countable(),
            old(self)@.can_take(event),
        ensures
            final(self)@.countable(),
            (final(self)@, r@) == old(self)@.next(event),
    {
        let ghost before = self@;
        let n: usize = self.workers.len();
        proof {
            lemma_mapped(
                self.workers.seq(),
                contents(),
                WorkerId(0),
                self.workers@[WorkerId(0)],
            );
            lemma_room_stays(before, event, 0);
        }
        match event {
            WorkerStateCoreEvent::PressureUpdate { worker_id, psi } => {
                let change = |t: TrackedWorkerStateCore| -> (r: (
                    TrackedWorkerStateCore,
                    WorkerCandidate,
                ))
                    ensures
                        r.0@ == t@.measured(psi),
                        r.1 == r.0@.candidate(worker_id),
                    {
                        let mut t: TrackedWorkerStateCore = t;
                        t.psi = Some(psi);
                        t.recompute_pressure_from_psi();
                        let c: WorkerCandidate = t.to_candidate(worker_id);
                        (t, c)
                    };
                match self.revise(worker_id, change) {
                    Some(c) => WorkerStateEffects::of_update(
                        SchedulerCoreInput::WorkerUpdate(worker_id, c),
                    ),
                    None => WorkerStateEffects::nothing(),
                }
            },
            WorkerStateCoreEvent::PoolCapacityUpdate { worker_id, pools } => {
                let change = |t: TrackedWorkerStateCore| -> (r: (TrackedWorkerStateCore, ()))
                    ensures
                        r.0@ == (TrackedView {
                            capabilities: WorkerCapabilities { pools, ..t@.capabilities },
                            ..t@
                        }),
                    {
                        let mut t: TrackedWorkerStateCore = t;
                        t.capabilities.pools = pools;
                        (t, ())
                    };
                let _ = self.revise(worker_id, change);
                WorkerStateEffects::nothing()
            },
            WorkerStateCoreEvent::ConditionUpdate { worker_id, key, active, .. } => {
                let change = |t: TrackedWorkerStateCore| -> (r: (
                    TrackedWorkerStateCore,
                    WorkerCandidate,
                ))
                    ensures
                        r.0@ == (TrackedView {
                            conditions: t@.conditions.insert(key@, active),
                            ..t@
                        }),
                        r.1 == r.0@.candidate(worker_id),
                    {
                        let mut t: TrackedWorkerStateCore = t;
                        t.conditions.insert(key, active);
                        let c: WorkerCandidate = t.to_candidate(worker_id);
                        (t, c)
                    };
                match self.revise(worker_id, change) {
                    Some(c) => WorkerStateEffects::of_update(
                        SchedulerCoreInput::WorkerUpdate(worker_id, c),
                    ),
                    None => WorkerStateEffects::nothing(),
                }
            },
            WorkerStateCoreEvent::Connected {
                worker_id,
                capabilities,
                tunnel_info,
                wireguard_info,
                proto_worker_id,
            } => {
                let state = TrackedWorkerStateCore::new(
                    capabilities,
                    tunnel_info,
                    wireguard_info,
                    proto_worker_id,
                );
                let candidate: WorkerCandidate = state.to_candidate(worker_id);
                proof {
                    lemma_mapped(self.workers.seq(), contents(), worker_id, state);
                }
                self.workers.insert(worker_id, state);
                let mut effects = WorkerStateEffects::of_update(
                    SchedulerCoreInput::WorkerUpdate(worker_id, candidate),
                );
                effects.worker_registry_broadcast = Some(self.build_worker_registry());
                effects
            },
            WorkerStateCoreEvent::Disconnected { worker_id } => {
                proof {
                    lemma_mapped(
                        self.workers.seq(),
                        contents(),
                        worker_id,
                        self.workers@[worker_id],
                    );
                }
                let _ = self.workers.remove(&worker_id);
                let mut effects = WorkerStateEffects::of_update(
                    SchedulerCoreInput::WorkerRemoved(worker_id),
                );
                effects.worker_registry_broadcast = Some(self.build_worker_registry());
                effects
            },
            WorkerStateCoreEvent::NamespaceAssigned { worker_id, namespace_id } => {
                let mut effects = WorkerStateEffects::nothing();
                if let Some(segment) = self.segment_of(&namespace_id) {
                    if self.serves(worker_id, segment) == Some(false) {
                        let change = |t: TrackedWorkerStateCore| -> (r: (
                            TrackedWorkerStateCore,
                            (),
                        ))
                            ensures
                                r.0@ == (TrackedView {
                                    segments: upsert(t@.segments, segment, ()),
                                    ..t@
                                }),
                            {
                                let mut t: TrackedWorkerStateCore = t;
                                t.segments.insert(segment, ());
                                (t, ())
                            };
                        let _ = self.revise(worker_id, change);
                        effects.worker_registry_broadcast = Some(self.build_worker_registry());
                    }
                }
                effects
            },
            WorkerStateCoreEvent::NamespaceUnassigned { worker_id, namespace_id } => {
                let mut effects = WorkerStateEffects::nothing();
                if let Some(segment) = self.segment_of(&namespace_id) {
                    if self.serves(worker_id, segment) == Some(true) {
                        let change = |t: TrackedWorkerStateCore| -> (r: (
                            TrackedWorkerStateCore,
                            (),
                        ))
                            ensures
                                r.0@ == (TrackedView {
                                    segments: erase(t@.segments, segment),
                                    ..t@
                                }),
                            {
                                let mut t: TrackedWorkerStateCore = t;
                                let _ = t.segments.remove(&segment);
                                (t, ())
                            };
                        let _ = self.revise(worker_id, change);
                        effects.worker_registry_broadcast = Some(self.build_worker_registry());
                    }
                }
                effects
            },
            WorkerStateCoreEvent::RegisterNamespaceSegment { namespace_id, segment_id } => {
                self.namespace_segments.insert(namespace_id, segment_id);
                WorkerStateEffects::nothing()
            },
            WorkerStateCoreEvent::UnregisterNamespaceSegment { namespace_id } => {
                let _ = self.namespace_segments.remove(&namespace_id);
                WorkerStateEffects::nothing()
            },
            WorkerStateCoreEvent::PodCountChange { worker_id, delta } => {
                let change = |t: TrackedWorkerStateCore| -> (r: (
                    TrackedWorkerStateCore,
                    WorkerCandidate,
                ))
                    requires
                        t@.pod_count <= i32::MAX,
                        t@.pod_count + delta <= i32::MAX,
                    ensures
                        r.0@ == t@.counted(delta),
                        r.1 == r.0@.candidate(worker_id),
                    {
                        let mut t: TrackedWorkerStateCore = t;
                        let count: i64 = t.pod_count as i64 + delta as i64;
                        t.pod_count = if count < 0 {
                            0
                        } else {
                            count as usize
                        };
                        t.recompute_pressure_from_psi();
                        let c: WorkerCandidate = t.to_candidate(worker_id);
                        (t, c)
                    };
                match self.revise(worker_id, change) {
                    Some(c) => WorkerStateEffects::of_update(
                        SchedulerCoreInput::WorkerUpdate(worker_id, c),
                    ),
                    None => WorkerStateEffects::nothing(),
                }
            },
        }
    }

    /// How many workers there are.
    pub fn worker_count(&self) -> (r: usize)
        ensures
            r == self@.workers.len(),
            increasing(self@.workers),
    {
        proof {
            use_type_invariant(&self.workers);
            self.lemma_in_order();
        }
        self.workers.len()
    }

    /// Whether a worker serves a segment, if it is there.
    fn serves(&self, worker_id: WorkerId, segment: u16) -> (r: Option<bool>)
        ensures
            r == (if self@.has(worker_id) {
                Some(has_key(self@.get(worker_id).segments, segment))
            } else {
                None
            }),
    {
        let n: usize = self.workers.len();
        proof {
            lemma_mapped(self.workers.seq(), contents(), worker_id, self.workers@[worker_id]);
            assert(self.workers@ == as_map(self.workers.seq()));
        }
        match self.workers.get(&worker_id) {
            Some(t) => Some(t.segments.contains_key(&segment)),
            None => None,
        }
    }

    /// The first worker that peers can reach.
    pub fn find_tunnel_worker(&self) -> (r: Option<(WorkerId, WorkerTunnelInfo, &str)>)
        ensures
            (match r {
                Some(f) => Some((f.0, f.1, f.2@)),
                None => None,
            }) == first_tunnel(self@.workers),
    {
        let ghost s = self@.workers;
        let n: usize = self.workers.len();
        let mut i: usize = 0;
        assert(s.skip(0) =~= s);
        while i < n
            invariant
                i <= n,
                n == s.len(),
                s == self@.workers,
                n == self.workers.seq().len(),
                first_tunnel(s.skip(i as int)) == first_tunnel(s),
            decreases n - i,
        {
            assert(s.skip(i as int).skip(1) =~= s.skip(i + 1));
            assert(s.skip(i as int)[0] == s[i as int]);
            let t: &TrackedWorkerStateCore = self.workers.value_at(i);
            if let Some(tunnel) = t.tunnel_info {
                let endpoint: &str = t.capabilities.public_endpoint.as_str();
                if !is_blank(endpoint) {
                    return Some((*self.workers.key_at(i), tunnel, endpoint));
                }
            }
            i = i + 1;
        }
        None
    }

    /// The first worker that clients can reach.
    pub fn find_wireguard_worker(&self) -> (r: Option<(WorkerId, WireguardAdapterInfo, &str)>)
        ensures
            (match r {
                Some(f) => Some((f.0, f.1, f.2@)),
                None => None,
            }) == first_wireguard(self@.workers),
    {
        let ghost s = self@.workers;
        let n: usize = self.workers.len();
        let mut i: usize = 0;
        assert(s.skip(0) =~= s);
        while i < n
            invariant
                i <= n,
                n == s.len(),
                s == self@.workers,
                n == self.workers.seq().len(),
                first_wireguard(s.skip(i as int)) == first_wireguard(s),
            decreases n - i,
        {
            assert(s.skip(i as int).skip(1) =~= s.skip(i + 1));
            assert(s.skip(i as int)[0] == s[i as int]);
            let t: &TrackedWorkerStateCore = self.workers.value_at(i);
            if let Some(wg) = t.wireguard_info {
                let endpoint: &str = t.capabilities.public_endpoint.as_str();
                if !is_blank(endpoint) {
                    return Some((*self.workers.key_at(i), wg, endpoint));
                }
            }
            i = i + 1;
        }
        None
    }

    fn query(worker_id: WorkerId, t: &TrackedWorkerStateCore) -> (r: WorkerQueryInfo)
        requires
            t@.pod_count <= i32::MAX,
        ensures
            r@ == query_of(worker_id, t@),
    {
        let copy = |_k: &String, v: &bool| -> (r: bool)
            ensures
                r == *v,
            {
                *v
            };
        let conditions: SortedMap<String, bool> = t.conditions.map_to(copy);
        assert(conditions@ =~= t.conditions@);
        let r = WorkerQueryInfo {
            worker_id,
            max_pods: t.capabilities.max_pods,
            available_memory_mb: t.capabilities.available_memory_mb,
            active_pods: t.pod_count as u32,
            conditions,
        };
        assert(r@ =~= query_of(worker_id, t@));
        r
    }

    /// What a client learns of a worker.
    pub fn query_worker(&self, id: WorkerId) -> (r: Option<WorkerQueryInfo>)
        requires
            self@.countable(),
        ensures
            match r {
                Some(q) => self@.has(id) && q@ == query_of(id, self@.get(id)),
                None => !self@.has(id),
            },
    {
        let n: usize = self.workers.len();
        let ghost s = self.workers.seq();
        proof {
            lemma_mapped(s, contents(), id, self.workers@[id]);
            assert(self.workers@ == as_map(s));
            if has_key(s, id) {
                let p = position(s, id);
                assert(self@.workers[p].1 == s[p].1@);
            }
        }
        match self.workers.get(&id) {
            Some(t) => Some(Self::query(id, t)),
            None => None,
        }
    }

    /// What a client learns of all workers.
    pub fn query_all_workers(&self) -> (r: Vec<WorkerQueryInfo>)
        requires
            self@.countable(),
        ensures
            r@.len() == self@.workers.len(),
            forall|i: int|
                0 <= i < r@.len() ==> (#[trigger] r@[i])@ == query_of(
                    self@.workers[i].0,
                    self@.workers[i].1,
                ),
    {
        let n: usize = self.workers.len();
        let mut out: Vec<WorkerQueryInfo> = Vec::new();
        let mut i: usize = 0;
        while i < n
            invariant
                i <= n,
                n == self@.workers.len(),
                n == self.workers.seq().len(),
                self@.countable(),
                out@.len() == i,
                forall|j: int|
                    0 <= j < i ==> (#[trigger] out@[j])@ == query_of(
                        self@.workers[j].0,
                        self@.workers[j].1,
                    ),
            decreases n - i,
        {
            assert(self@.workers[i as int].1 == self.workers.seq()[i as int].1@);
            out.push(Self::query(*self.workers.key_at(i), self.workers.value_at(i)));
            i = i + 1;
        }
        out
    }
}

/// Room for `more` pods on every worker, and on one that connects.
pub open spec fn room_for(workers: Seq<(WorkerId, TrackedView)>, more: nat) -> bool {
    more <= i32::MAX && forall|i: int|
        0 <= i < workers.len() ==> (#[trigger] workers[i]).1.pod_count + more <= i32::MAX
}

/// An event leaves as much room as there was, but for one that counts pods.
pub proof fn lemma_room_stays(before: WorkerStateView, event: WorkerStateCoreEvent, more: nat)
    requires
        room_for(before.workers, more),
        event matches WorkerStateCoreEvent::PodCountChange { worker_id, delta } ==> before.has(
            worker_id,
        ) ==> before.get(worker_id).pod_count + delta + more <= i32::MAX,
        increasing(before.workers),
    ensures
        room_for(before.next(event).0.workers, more),
{
    let p = |t: TrackedView| t.pod_count + more <= i32::MAX;
    let s = before.workers;
    assert(all_values(s, p));
    match event {
        WorkerStateCoreEvent::PressureUpdate { worker_id, psi } => {
            lemma_all_values(s, worker_id, before.get(worker_id).measured(psi), p);
        },
        WorkerStateCoreEvent::PoolCapacityUpdate { worker_id, pools } => {
            let t = before.get(worker_id);
            let u = TrackedView {
                capabilities: WorkerCapabilities { pools, ..t.capabilities },
                ..t
            };
            lemma_all_values(s, worker_id, u, p);
        },
        WorkerStateCoreEvent::ConditionUpdate { worker_id, key, active, .. } => {
            let t = before.get(worker_id);
            let u = TrackedView { conditions: t.conditions.insert(key@, active), ..t };
            lemma_all_values(s, worker_id, u, p);
        },
        WorkerStateCoreEvent::Connected {
            worker_id,
            capabilities,
            tunnel_info,
            wireguard_info,
            proto_worker_id,
        } => {
            let u = TrackedView::fresh(capabilities, tunnel_info, wireguard_info, proto_worker_id);
            lemma_all_values(s, worker_id, u, p);
        },
        WorkerStateCoreEvent::Disconnected { worker_id } => {
            lemma_all_values(s, worker_id, before.get(worker_id), p);
        },
        WorkerStateCoreEvent::NamespaceAssigned { worker_id, namespace_id } => {
            let t = before.get(worker_id);
            let u = TrackedView {
                segments: upsert(t.segments, before.namespace_segments[namespace_id.id()], ()),
                ..t
            };
            lemma_all_values(s, worker_id, u, p);
        },
        WorkerStateCoreEvent::NamespaceUnassigned { worker_id, namespace_id } => {
            let t = before.get(worker_id);
            let u = TrackedView {
                segments: erase(t.segments, before.namespace_segments[namespace_id.id()]),
                ..t
            };
            lemma_all_values(s, worker_id, u, p);
        },
        WorkerStateCoreEvent::PodCountChange { worker_id, delta } => {
            lemma_all_values(s, worker_id, before.get(worker_id).counted(delta), p);
        },
        _ => {},
    }
    assert(all_values(before.next(event).0.workers, p));
}

} // verus!
