//! The cluster: namespaces, workers and clients.
//!
//! Namespaces take their inputs one at a time. A handler names the inputs and the computations of
//! pressure that it needs as [`Task`]s, in order.
use vstd::prelude::*;

use crate::ids::{ArtifactId, ClientId, NamespaceId, PodId, PoolId, WorkerId, WorkloadId};
use crate::namespace::step::NamespaceInput;
use crate::namespace::NamespaceStateMachine;
use crate::output::{
    client_event_views, command_views, event_views, ClientEvent, ClientEventView, EventView,
    NamespaceOutput, OutputView, SmNamespaceEvent, TimerRequest,
};
use crate::placement::PlacementTable;
use crate::sorted_map::{Key, SortedMap};
use crate::types::{CommandView, PressureBands, TimerKey, WorkerCommand};

pub mod client;
pub mod cluster_laws;
pub mod invariants;
pub mod networking;
pub mod routing;
pub mod scheduling;
pub mod segments;
pub mod settle;
pub mod step;
pub mod workers;

verus! {

/// A store of a worker.
#[derive(Debug, PartialEq, Eq)]
pub struct PoolInfo {
    pub pool_id: PoolId,
    pub capacity_bytes: u64,
    pub available_bytes: u64,
}

/// What a worker can do.
#[derive(Debug, PartialEq, Eq)]
pub struct WorkerCapabilities {
    pub max_pods: u32,
    pub available_memory_mb: u64,
    pub public_endpoint: String,
    pub pools: Vec<PoolInfo>,
}

/// A port that listens, and its public key.
#[derive(Debug, Clone, Copy, PartialEq, Eq)]
pub struct WorkerWgConfig {
    pub listen_port: u16,
    pub public_key: [u8; 32],
}

/// A port that listens for the tunnels of other workers, and its public key.
#[derive(Debug, Clone, Copy, PartialEq, Eq)]
pub struct WorkerTunnelConfig {
    pub listen_port: u16,
    pub public_key: [u8; 32],
}

#[derive(Debug, PartialEq, Eq)]
pub struct WorkerCondition {
    pub active: bool,
    pub message: String,
}

/// A connected worker.
pub struct WorkerState {
    pub capabilities: WorkerCapabilities,
    pub namespaces: SortedMap<NamespaceId, ()>,
    pub wg_config: Option<WorkerWgConfig>,
    pub tunnel_config: Option<WorkerTunnelConfig>,
    pub conditions: SortedMap<String, WorkerCondition>,
    pub transfer_listen_port: Option<u16>,
    pub pressure_bands: PressureBands,
}

/// Memory that is set aside on a worker for a pod that is on its way.
#[derive(Debug, PartialEq, Eq)]
pub struct Lease {
    pub worker_id: WorkerId,
    pub memory_mb: u64,
}

/// What is set aside for which pod.
pub struct LeaseTable {
    pub leases: SortedMap<PodId, Lease>,
}

impl LeaseTable {
    pub open spec fn view(&self) -> Map<Seq<char>, Lease> {
        self.leases@
    }

    pub fn new() -> (r: Self)
        ensures
            r@ == Map::<Seq<char>, Lease>::empty(),
    {
        LeaseTable { leases: SortedMap::new() }
    }

    /// Gives up what is set aside for a pod.
    pub fn release(&mut self, pod_id: &PodId)
        ensures
            final(self)@ == old(self)@.remove(pod_id.id()),
    {
        let _ = self.leases.remove(pod_id);
    }

    /// Gives up all that is set aside on a worker.
    pub fn release_worker_leases(&mut self, worker_id: &WorkerId)
        ensures
            final(self)@ == leases_off(old(self)@, worker_id.id()),
    {
        let test = |_p: &PodId, l: &Lease| -> (r: bool)
            ensures
                r == (l.worker_id.id() != worker_id.id()),
            {
                !l.worker_id.same(worker_id)
            };
        self.leases.retain(
            test,
            Ghost(|_p: Seq<char>, l: Lease| l.worker_id.id() != worker_id.id()),
        );
        assert(self@ =~= leases_off(old(self)@, worker_id.id()));
    }

    /// The memory that is set aside on a worker.
    pub fn leased_memory_mb(&self, worker_id: &WorkerId) -> (r: u64)
        requires
            leased(self.leases.seq(), worker_id.id()) <= u64::MAX,
        ensures
            r == leased(self.leases.seq(), worker_id.id()),
    {
        let n: usize = self.leases.len();
        let ghost s = self.leases.seq();
        let ghost w = worker_id.id();
        let mut sum: u64 = 0;
        let mut i: usize = 0;
        assert(s.take(0) =~= Seq::<(PodId, Lease)>::empty());
        while i < n
            invariant
                n == s.len(),
                s == self.leases.seq(),
                w == worker_id.id(),
                i <= n,
                sum == leased(s.take(i as int), w),
                leased(s, w) <= u64::MAX,
            decreases n - i,
        {
            proof {
                assert(s.take(i + 1).drop_last() =~= s.take(i as int));
                assert(s.take(i + 1).last() == s[i as int]);
                lemma_leased_grows(s, w, i + 1);
            }
            if self.leases.value_at(i).worker_id.same(worker_id) {
                sum = sum + self.leases.value_at(i).memory_mb;
            }
            i = i + 1;
        }
        assert(s.take(i as int) =~= s);
        sum
    }
}

/// `leases` without those on a worker.
pub open spec fn leases_off(leases: Map<Seq<char>, Lease>, worker: Seq<char>) -> Map<
    Seq<char>,
    Lease,
> {
    leases.remove_keys(
        Set::new(|p: Seq<char>| leases.contains_key(p) && leases[p].worker_id.id() == worker),
    )
}

/// The memory that is set aside on a worker.
pub open spec fn leased(leases: Seq<(PodId, Lease)>, worker: Seq<char>) -> nat
    decreases leases.len(),
{
    if leases.len() == 0 {
        0
    } else {
        leased(leases.drop_last(), worker) + if leases.last().1.worker_id.id() == worker {
            leases.last().1.memory_mb as nat
        } else {
            0
        }
    }
}

proof fn lemma_leased_grows(leases: Seq<(PodId, Lease)>, worker: Seq<char>, n: int)
    requires
        0 <= n <= leases.len(),
    ensures
        leased(leases.take(n), worker) <= leased(leases, worker),
    decreases leases.len() - n,
{
    if n == leases.len() {
        assert(leases.take(n) =~= leases);
    } else {
        assert(leases.take(n + 1).drop_last() =~= leases.take(n));
        lemma_leased_grows(leases, worker, n + 1);
    }
}

/// What the cluster still has to do for an input, in order.
pub enum Task {
    /// Hand an input to a namespace, if it is there.
    Route { namespace_id: NamespaceId, input: NamespaceInput },
    /// Let a namespace take an input and do what it leaves to do. What it gives out comes back
    /// through `namespace_ran`; `scheduled` marks the start of a pod.
    Run { namespace_id: NamespaceId, input: NamespaceInput, scheduled: bool },
    /// Find a worker for a pod of a workload.
    Launch { namespace_id: NamespaceId, workload_id: WorkloadId },
    /// Let a workload go on from its snapshot.
    Resume { namespace_id: NamespaceId, workload_id: WorkloadId, artifact_id: ArtifactId },
    /// Find workers for all workloads that wait.
    ScheduleWaiting,
    /// Determine the pressure of a worker anew. The bands come back through `recompute_worker_pressure`.
    Recompute { worker_id: WorkerId },
    /// Determine the pressure of every worker anew.
    RecomputeAll,
    /// Forget a namespace that is gone.
    RemoveNamespace { namespace_id: NamespaceId },
    /// Tell every worker of every worker.
    PushRegistry,
    /// Take a worker in.
    Welcome {
        worker_id: WorkerId,
        capabilities: WorkerCapabilities,
        wg_config: Option<WorkerWgConfig>,
        tunnel_config: Option<WorkerTunnelConfig>,
    },
}

/// The cluster.
pub struct Orchestrator {
    pub namespaces: SortedMap<NamespaceId, NamespaceStateMachine>,
    pub workers: SortedMap<WorkerId, WorkerState>,
    pub clients: SortedMap<ClientId, ()>,
    pub next_pod_id: u64,
    pub next_segment_id: u16,
    pub active_segment_ids: SortedMap<u16, ()>,
    /// Where snapshots are stored across the cluster.
    pub placement_table: PlacementTable,
    pub lease_table: LeaseTable,
}

// ---- what the cluster gives out ---------------------------------------------------------------

/// All that one input made the cluster give out.
pub struct OrchestratorOutput {
    pub worker_commands: Vec<(WorkerId, WorkerCommand)>,
    pub client_events: Vec<(ClientId, ClientEvent)>,
    pub timers_set: Vec<(NamespaceId, TimerRequest)>,
    pub timers_cancel: Vec<(NamespaceId, TimerKey)>,
    pub events: Vec<(NamespaceId, SmNamespaceEvent)>,
}

#[verifier::ext_equal]
pub struct ClusterView {
    pub worker_commands: Seq<(WorkerId, CommandView)>,
    pub client_events: Seq<(ClientId, ClientEventView)>,
    pub timers_set: Seq<(NamespaceId, TimerRequest)>,
    pub timers_cancel: Seq<(NamespaceId, TimerKey)>,
    pub events: Seq<(NamespaceId, EventView)>,
}

/// `s` with a namespace's name on each entry.
pub open spec fn named<T>(namespace_id: NamespaceId, s: Seq<T>) -> Seq<(NamespaceId, T)> {
    s.map_values(|x: T| (namespace_id, x))
}

impl ClusterView {
    /// Nothing.
    pub open spec fn nothing() -> ClusterView {
        ClusterView {
            worker_commands: seq![],
            client_events: seq![],
            timers_set: seq![],
            timers_cancel: seq![],
            events: seq![],
        }
    }

    pub open spec fn with_command(self, worker_id: WorkerId, command: CommandView) -> ClusterView {
        ClusterView { worker_commands: self.worker_commands.push((worker_id, command)), ..self }
    }

    pub open spec fn with_commands(self, commands: Seq<(WorkerId, CommandView)>) -> ClusterView {
        ClusterView { worker_commands: self.worker_commands + commands, ..self }
    }

    pub open spec fn with_client_event(
        self,
        client_id: ClientId,
        event: ClientEventView,
    ) -> ClusterView {
        ClusterView { client_events: self.client_events.push((client_id, event)), ..self }
    }

    pub open spec fn with_error(self, client_id: ClientId, message: Seq<char>) -> ClusterView {
        self.with_client_event(client_id, ClientEventView::Error { message })
    }

    /// With what a namespace gave out.
    pub open spec fn with_namespace(self, namespace_id: NamespaceId, other: OutputView) -> ClusterView {
        ClusterView {
            worker_commands: self.worker_commands + other.worker_commands,
            client_events: self.client_events + other.client_events,
            timers_set: self.timers_set + named(namespace_id, other.timers_set),
            timers_cancel: self.timers_cancel + named(namespace_id, other.timers_cancel),
            events: self.events + named(namespace_id, other.events),
        }
    }
}

impl OrchestratorOutput {
    pub open spec fn view(&self) -> ClusterView {
        ClusterView {
            worker_commands: command_views(self.worker_commands@),
            client_events: client_event_views(self.client_events@),
            timers_set: self.timers_set@,
            timers_cancel: self.timers_cancel@,
            events: self.events@.map_values(
                |e: (NamespaceId, SmNamespaceEvent)| (e.0, e.1@),
            ),
        }
    }

    pub fn new() -> (r: Self)
        ensures
            r@ == ClusterView::nothing(),
    {
        let r = OrchestratorOutput {
            worker_commands: Vec::new(),
            client_events: Vec::new(),
            timers_set: Vec::new(),
            timers_cancel: Vec::new(),
            events: Vec::new(),
        };
        assert(r@ =~= ClusterView::nothing());
        r
    }

    /// Tells a worker to do something.
    pub fn command(&mut self, worker_id: WorkerId, command: WorkerCommand)
        ensures
            final(self)@ == old(self)@.with_command(worker_id, command@),
    {
        self.worker_commands.push((worker_id, command));
        assert(self@ =~= old(self)@.with_command(worker_id, command@));
    }

    /// Tells a client something.
    pub fn tell(&mut self, client_id: ClientId, event: ClientEvent)
        ensures
            final(self)@ == old(self)@.with_client_event(client_id, event@),
    {
        self.client_events.push((client_id, event));
        assert(self@ =~= old(self)@.with_client_event(client_id, event@));
    }

    /// Appends what a namespace gave out.
    pub fn merge_namespace(&mut self, namespace_id: &NamespaceId, other: NamespaceOutput)
        ensures
            final(self)@ == old(self)@.with_namespace(*namespace_id, other@),
    {
        let ghost before = self@;
        let ghost theirs = other@;
        let mut other: NamespaceOutput = other;
        self.worker_commands.append(&mut other.worker_commands);
        self.client_events.append(&mut other.client_events);
        Self::name_all(namespace_id, other.timers_set, &mut self.timers_set);
        Self::name_all(namespace_id, other.timers_cancel, &mut self.timers_cancel);
        let ghost events = other.events@;
        let ghost earlier = self.events@;
        Self::name_all(namespace_id, other.events, &mut self.events);
        proof {
            assert(self@.events =~= before.events + named(*namespace_id, theirs.events)) by {
                assert(self.events@ == earlier + named(*namespace_id, events));
                assert(theirs.events == event_views(events));
            }
            assert(self@ =~= before.with_namespace(*namespace_id, theirs));
        }
    }

    fn name_all<T>(namespace_id: &NamespaceId, from: Vec<T>, to: &mut Vec<(NamespaceId, T)>)
        ensures
            final(to)@ == old(to)@ + named(*namespace_id, from@),
    {
        let ghost all = from@;
        let ghost before = to@;
        let mut from: Vec<T> = from;
        let n: usize = from.len();
        let mut i: usize = 0;
        assert(to@ =~= before + named(*namespace_id, all.take(0)));
        while i < n
            invariant
                i <= n,
                n == all.len(),
                from@ == all.skip(i as int),
                to@ == before + named(*namespace_id, all.take(i as int)),
            decreases n - i,
        {
            let x: T = from.remove(0);
            to.push((namespace_id.clone(), x));
            proof {
                assert(all.skip(i as int)[0] == all[i as int]);
                assert(from@ =~= all.skip(i + 1));
                assert(to@ =~= before + named(*namespace_id, all.take(i + 1)));
            }
            i = i + 1;
        }
        assert(all.take(i as int) =~= all);
    }
}

impl Default for OrchestratorOutput {
    fn default() -> (r: Self)
        ensures
            r@ == ClusterView::nothing(),
    {
        OrchestratorOutput::new()
    }
}

} // verus!
