//! Inputs for namespaces, and what comes of them.
use vstd::prelude::*;

use crate::ids::{ClientId, NamespaceId, PodId, WorkerId};
use crate::namespace::events::WorkerEvent;
use crate::namespace::step::NamespaceInput;
use crate::namespace::NamespaceStateMachine;
use crate::orchestrator::{
    leased, ClusterView, Orchestrator, OrchestratorOutput, Task, WorkerState,
};
use crate::output::{ClientEvent, NamespaceOutput, OutputView};
use crate::placement::PlacementTable;
use crate::pod_map::on_worker;
use crate::sorted_map::{Key, SortedMap};
use crate::types::{NamespaceWorkerState, PressureBand, PressureBands, TimerKey};

verus! {

/// The client that waits for an answer to an input.
pub open spec fn client_of(input: NamespaceInput) -> Option<ClientId> {
    match input {
        NamespaceInput::UpdateSpec { client_id, .. } => Some(client_id),
        NamespaceInput::Delete { client_id } => Some(client_id),
        NamespaceInput::GetStatus { client_id } => Some(client_id),
        NamespaceInput::Splice { client_id, .. } => Some(client_id),
        NamespaceInput::Unsplice { client_id, .. } => Some(client_id),
        NamespaceInput::StreamLogs { client_id, .. } => Some(client_id),
        NamespaceInput::Connect { client_id, .. } => Some(client_id),
        NamespaceInput::Disconnect { client_id, .. } => Some(client_id),
        NamespaceInput::DeactivateWorkload { client_id, .. } => Some(client_id),
        _ => None,
    }
}

/// The client that waits for an answer to an input.
pub fn extract_client_id(input: &NamespaceInput) -> (r: Option<ClientId>)
    ensures
        r == client_of(*input),
{
    match input {
        NamespaceInput::UpdateSpec { client_id, .. } => Some(*client_id),
        NamespaceInput::Delete { client_id } => Some(*client_id),
        NamespaceInput::GetStatus { client_id } => Some(*client_id),
        NamespaceInput::Splice { client_id, .. } => Some(*client_id),
        NamespaceInput::Unsplice { client_id, .. } => Some(*client_id),
        NamespaceInput::StreamLogs { client_id, .. } => Some(*client_id),
        NamespaceInput::Connect { client_id, .. } => Some(*client_id),
        NamespaceInput::Disconnect { client_id, .. } => Some(*client_id),
        NamespaceInput::DeactivateWorkload { client_id, .. } => Some(*client_id),
        _ => None,
    }
}

/// The pod whose lease an input ends: it runs, it is gone, or its start took too long.
pub open spec fn lease_ended(input: NamespaceInput) -> Option<PodId> {
    match input {
        NamespaceInput::WorkerEvent { event, .. } => match event {
            WorkerEvent::PodRunning { pod_id } => Some(pod_id),
            WorkerEvent::PodExited { pod_id, .. } => Some(pod_id),
            WorkerEvent::PodFailed { pod_id, .. } => Some(pod_id),
            WorkerEvent::PodSuspended { pod_id, .. } => Some(pod_id),
            WorkerEvent::PodSuspendFailed { pod_id, .. } => Some(pod_id),
            _ => None,
        },
        NamespaceInput::TimerFired { timer_key } => match timer_key {
            TimerKey::LaunchTimeout { pod_id, .. } => Some(pod_id),
            TimerKey::ResumeTimeout { pod_id, .. } => Some(pod_id),
            _ => None,
        },
        _ => None,
    }
}

/// What follows when a namespace has taken an input and given out `given`: its pods are started, all
/// that waits is scheduled, the pressure is determined anew, and a namespace that is gone is
/// forgotten.
pub open spec fn after_run(namespace_id: NamespaceId, given: OutputView) -> Seq<Task> {
    let starts = Seq::new(
        given.pod_requests.len(),
        |i: int|
            Task::Launch { namespace_id, workload_id: given.pod_requests[i].workload_id },
    );
    let resumes = Seq::new(
        given.resume_requests.len(),
        |i: int|
            Task::Resume {
                namespace_id,
                workload_id: given.resume_requests[i].workload_id,
                artifact_id: given.resume_requests[i].artifact_id,
            },
    );
    starts + resumes + seq![Task::ScheduleWaiting, Task::RecomputeAll] + if given.destroyed {
        seq![Task::RemoveNamespace { namespace_id }]
    } else {
        seq![]
    }
}

/// The pods on a worker, over all namespaces.
pub open spec fn pods_on(
    namespaces: Seq<(NamespaceId, NamespaceStateMachine)>,
    worker: Seq<char>,
) -> nat
    decreases namespaces.len(),
{
    if namespaces.len() == 0 {
        0
    } else {
        pods_on(namespaces.drop_last(), worker) + on_worker(
            namespaces.last().1.pod_map@,
            worker,
        ).len()
    }
}

proof fn lemma_pods_on_grows(
    namespaces: Seq<(NamespaceId, NamespaceStateMachine)>,
    worker: Seq<char>,
    n: int,
)
    requires
        0 <= n <= namespaces.len(),
    ensures
        pods_on(namespaces.take(n), worker) <= pods_on(namespaces, worker),
    decreases namespaces.len() - n,
{
    if n == namespaces.len() {
        assert(namespaces.take(n) =~= namespaces);
    } else {
        assert(namespaces.take(n + 1).drop_last() =~= namespaces.take(n));
        lemma_pods_on_grows(namespaces, worker, n + 1);
    }
}

/// The members of a namespace with a worker's band changed.
pub open spec fn banded(
    members: Map<Seq<char>, NamespaceWorkerState>,
    worker: Seq<char>,
    band: PressureBand,
) -> Map<Seq<char>, NamespaceWorkerState> {
    if members.contains_key(worker) {
        members.insert(
            worker,
            NamespaceWorkerState { pressure_band: band, ..members[worker] },
        )
    } else {
        members
    }
}

impl Orchestrator {
    pub fn new() -> (r: Self)
        ensures
            r.namespaces@ == Map::<Seq<char>, NamespaceStateMachine>::empty(),
            r.workers@ == Map::<Seq<char>, WorkerState>::empty(),
            r.clients@ == Map::<ClientId, ()>::empty(),
            r.next_pod_id == 0,
            r.next_segment_id == 1,
            r.active_segment_ids@ == Map::<u16, ()>::empty(),
            r.placement_table@.dom() == Set::<Seq<char>>::empty(),
            r.lease_table@.dom() == Set::<Seq<char>>::empty(),
    {
        let r = Orchestrator {
            namespaces: SortedMap::new(),
            workers: SortedMap::new(),
            clients: SortedMap::new(),
            next_pod_id: 0,
            next_segment_id: 1,
            active_segment_ids: SortedMap::new(),
            placement_table: PlacementTable::new(),
            lease_table: crate::orchestrator::LeaseTable::new(),
        };
        assert(r.placement_table@.dom() =~= Set::<Seq<char>>::empty());
        assert(r.lease_table@.dom() =~= Set::<Seq<char>>::empty());
        r
    }

    /// What the routing of an input changes, gives out and leaves to do.
    pub open spec fn routed(
        self,
        namespace_id: NamespaceId,
        input: NamespaceInput,
        after: Orchestrator,
        out: ClusterView,
        out_after: ClusterView,
        next: Seq<Task>,
    ) -> bool {
        &&& after == Orchestrator { lease_table: after.lease_table, ..self }
        &&& after.lease_table@ == match lease_ended(input) {
            Some(pod_id) => self.lease_table@.remove(pod_id.id()),
            None => self.lease_table@,
        }
        &&& if self.namespaces@.contains_key(namespace_id.id()) {
            &&& out_after == out
            &&& next == seq![Task::Run { namespace_id, input, scheduled: false }]
        } else {
            &&& next.len() == 0
            &&& out_after == match client_of(input) {
                Some(client_id) => out.with_error(client_id, "namespace not found"@),
                None => out,
            }
        }
    }

    /// Hands an input on to its namespace, once the lease that it ends is given up. Where there is
    /// no such namespace the client that waits is told.
    pub fn route_namespace_input(
        &mut self,
        namespace_id: NamespaceId,
        input: NamespaceInput,
        out: &mut OrchestratorOutput,
    ) -> (r: Vec<Task>)
        ensures
            old(self).routed(namespace_id, input, *final(self), old(out)@, final(out)@, r@),
    {
        match &input {
            NamespaceInput::WorkerEvent { event, .. } => match event {
                WorkerEvent::PodRunning { pod_id } => self.lease_table.release(pod_id),
                WorkerEvent::PodExited { pod_id, .. } => self.lease_table.release(pod_id),
                WorkerEvent::PodFailed { pod_id, .. } => self.lease_table.release(pod_id),
                WorkerEvent::PodSuspended { pod_id, .. } => self.lease_table.release(pod_id),
                WorkerEvent::PodSuspendFailed { pod_id, .. } => self.lease_table.release(pod_id),
                _ => {},
            },
            NamespaceInput::TimerFired { timer_key } => match timer_key {
                TimerKey::LaunchTimeout { pod_id, .. } => self.lease_table.release(pod_id),
                TimerKey::ResumeTimeout { pod_id, .. } => self.lease_table.release(pod_id),
                _ => {},
            },
            _ => {},
        }
        let mut r: Vec<Task> = Vec::new();
        if self.namespaces.contains_key(&namespace_id) {
            r.push(Task::Run { namespace_id, input, scheduled: false });
            assert(r@ =~= seq![Task::Run { namespace_id, input, scheduled: false }]);
        } else if let Some(client_id) = extract_client_id(&input) {
            out.tell(client_id, ClientEvent::error("namespace not found"));
        }
        r
    }

    /// Takes in what a namespace gave out.
    pub fn process_namespace_output(
        &self,
        namespace_id: NamespaceId,
        ns_out: NamespaceOutput,
        out: &mut OrchestratorOutput,
    ) -> (r: Vec<Task>)
        ensures
            final(out)@ == old(out)@.with_namespace(namespace_id, ns_out@),
            r@ == after_run(namespace_id, ns_out@),
    {
        let ghost given = ns_out@;
        let mut tasks: Vec<Task> = Vec::new();
        let ghost all = after_run(namespace_id, given);
        let ghost p = given.pod_requests.len() as int;
        let mut i: usize = 0;
        while i < ns_out.pod_requests.len()
            invariant
                i <= ns_out.pod_requests@.len(),
                ns_out@ == given,
                p == given.pod_requests.len(),
                all == after_run(namespace_id, given),
                tasks@ == all.take(i as int),
            decreases ns_out.pod_requests@.len() - i,
        {
            tasks.push(
                Task::Launch {
                    namespace_id: namespace_id.clone(),
                    workload_id: ns_out.pod_requests[i].workload_id.clone(),
                },
            );
            assert(tasks@ =~= all.take(i + 1));
            i = i + 1;
        }
        let mut i: usize = 0;
        while i < ns_out.resume_requests.len()
            invariant
                i <= ns_out.resume_requests@.len(),
                ns_out@ == given,
                p == given.pod_requests.len(),
                all == after_run(namespace_id, given),
                tasks@ == all.take(p + i),
            decreases ns_out.resume_requests@.len() - i,
        {
            tasks.push(
                Task::Resume {
                    namespace_id: namespace_id.clone(),
                    workload_id: ns_out.resume_requests[i].workload_id.clone(),
                    artifact_id: ns_out.resume_requests[i].artifact_id.clone(),
                },
            );
            assert(tasks@ =~= all.take(p + i + 1));
            i = i + 1;
        }
        let destroyed: bool = ns_out.destroyed;
        out.merge_namespace(&namespace_id, ns_out);
        tasks.push(Task::ScheduleWaiting);
        tasks.push(Task::RecomputeAll);
        if destroyed {
            tasks.push(Task::RemoveNamespace { namespace_id });
        }
        assert(tasks@ =~= all);
        tasks
    }

    /// Takes in what a namespace gave out for a task. The start of a pod asks for nothing more.
    pub fn namespace_ran(
        &self,
        namespace_id: NamespaceId,
        ns_out: NamespaceOutput,
        scheduled: bool,
        out: &mut OrchestratorOutput,
    ) -> (r: Vec<Task>)
        ensures
            final(out)@ == old(out)@.with_namespace(namespace_id, ns_out@),
            r@ == (if scheduled {
                seq![]
            } else {
                after_run(namespace_id, ns_out@)
            }),
    {
        if scheduled {
            out.merge_namespace(&namespace_id, ns_out);
            Vec::new()
        } else {
            self.process_namespace_output(namespace_id, ns_out, out)
        }
    }

    /// The number of pods on a worker.
    pub fn pod_count(&self, worker_id: &WorkerId) -> (r: usize)
        requires
            pods_on(self.namespaces.seq(), worker_id.id()) <= usize::MAX,
        ensures
            r == pods_on(self.namespaces.seq(), worker_id.id()),
    {
        let n: usize = self.namespaces.len();
        let ghost s = self.namespaces.seq();
        let ghost w = worker_id.id();
        let mut sum: usize = 0;
        let mut i: usize = 0;
        assert(s.take(0) =~= Seq::<(NamespaceId, NamespaceStateMachine)>::empty());
        while i < n
            invariant
                n == s.len(),
                s == self.namespaces.seq(),
                w == worker_id.id(),
                i <= n,
                sum == pods_on(s.take(i as int), w),
                pods_on(s, w) <= usize::MAX,
            decreases n - i,
        {
            proof {
                assert(s.take(i + 1).drop_last() =~= s.take(i as int));
                assert(s.take(i + 1).last() == s[i as int]);
                lemma_pods_on_grows(s, w, i + 1);
            }
            sum = sum + self.namespaces.value_at(i).pod_map.worker_pod_count(worker_id);
            i = i + 1;
        }
        assert(s.take(i as int) =~= s);
        sum
    }

    /// The memory that is taken on a worker, where a pod takes `pod_memory_mb`.
    pub open spec fn committed(self, worker: Seq<char>, pod_memory_mb: u64) -> int {
        pods_on(self.namespaces.seq(), worker) * pod_memory_mb + leased(
            self.lease_table.leases.seq(),
            worker,
        )
    }

    /// The memory that is taken on a worker, where a pod takes `pod_memory_mb`: what its pods take,
    /// and what is set aside.
    pub fn committed_mb(&self, worker_id: &WorkerId, pod_memory_mb: u64) -> (r: u64)
        requires
            pods_on(self.namespaces.seq(), worker_id.id()) <= usize::MAX,
            self.committed(worker_id.id(), pod_memory_mb) <= u64::MAX,
        ensures
            r == self.committed(worker_id.id(), pod_memory_mb),
    {
        let pods: usize = self.pod_count(worker_id);
        assert(pods * pod_memory_mb >= 0) by (nonlinear_arith);
        let taken: u64 = pods as u64 * pod_memory_mb;
        taken + self.lease_table.leased_memory_mb(worker_id)
    }

    /// `after` is `self` with the bands of a worker changed, there and in every namespace that lists
    /// it.
    pub open spec fn with_bands(
        self,
        worker: Seq<char>,
        bands: PressureBands,
        after: Orchestrator,
    ) -> bool {
        if !self.workers@.contains_key(worker) {
            after == self
        } else {
            &&& after == Orchestrator {
                namespaces: after.namespaces,
                workers: after.workers,
                ..self
            }
            &&& after.workers.keys() == self.workers.keys()
            &&& after.workers@ == self.workers@.insert(
                worker,
                WorkerState { pressure_bands: bands, ..self.workers@[worker] },
            )
            &&& after.namespaces.keys() == self.namespaces.keys()
            &&& after.namespaces@.dom() == self.namespaces@.dom()
            &&& forall|n: Seq<char>|
                #![trigger after.namespaces@[n]]
                self.namespaces@.contains_key(n) ==> after.namespaces@[n] == (
                NamespaceStateMachine {
                    workers: after.namespaces@[n].workers,
                    ..self.namespaces@[n]
                }) && after.namespaces@[n].workers@ == banded(
                    self.namespaces@[n].workers@,
                    worker,
                    bands.worst(),
                )
        }
    }

    /// Takes in the bands of a worker, and tells the namespaces that list it.
    pub fn recompute_worker_pressure(&mut self, worker_id: &WorkerId, bands: PressureBands)
        ensures
            old(self).with_bands(worker_id.id(), bands, *final(self)),
    {
        if !self.workers.contains_key(worker_id) {
            return;
        }
        let change = |ws: WorkerState| -> (r: (WorkerState, ()))
            ensures
                r.0 == (WorkerState { pressure_bands: bands, ..ws }),
            {
                let mut ws: WorkerState = ws;
                ws.pressure_bands = bands;
                (ws, ())
            };
        let _ = self.workers.modify(worker_id, change);
        self.propagate_pressure_to_namespaces(worker_id);
    }

    /// Tells the namespaces that list a worker how hard pressed it is.
    pub fn propagate_pressure_to_namespaces(&mut self, worker_id: &WorkerId)
        ensures
            *final(self) == (Orchestrator { namespaces: final(self).namespaces, ..*old(self) }),
            final(self).namespaces.keys() == old(self).namespaces.keys(),
            final(self).namespaces@.dom() == old(self).namespaces@.dom(),
            old(self).workers@.contains_key(worker_id.id()) ==> forall|n: Seq<char>|
                #![trigger final(self).namespaces@[n]]
                old(self).namespaces@.contains_key(n) ==> final(self).namespaces@[n] == (
                NamespaceStateMachine {
                    workers: final(self).namespaces@[n].workers,
                    ..old(self).namespaces@[n]
                }) && final(self).namespaces@[n].workers@ == banded(
                    old(self).namespaces@[n].workers@,
                    worker_id.id(),
                    old(self).workers@[worker_id.id()].pressure_bands.worst(),
                ),
            !old(self).workers@.contains_key(worker_id.id()) ==> *final(self) == *old(self),
    {
        let ghost before = *self;
        let ghost w = worker_id.id();
        let band: PressureBand = match self.workers.get(worker_id) {
            Some(ws) => ws.pressure_bands.max_band(),
            None => {
                return;
            },
        };
        let tell = |ns: NamespaceStateMachine| -> (r: NamespaceStateMachine)
            ensures
                r == (NamespaceStateMachine { workers: r.workers, ..ns }),
                r.workers@ == banded(ns.workers@, worker_id.id(), band),
            {
                let mut ns: NamespaceStateMachine = ns;
                let note = |m: NamespaceWorkerState| -> (r: (NamespaceWorkerState, ()))
                    ensures
                        r.0 == (NamespaceWorkerState { pressure_band: band, ..m }),
                    {
                        let mut m: NamespaceWorkerState = m;
                        m.pressure_band = band;
                        (m, ())
                    };
                let _ = ns.workers.modify(worker_id, note);
                ns
            };
        self.namespaces.replace_values(tell);
        proof {
            assert forall|n: Seq<char>|
                #![trigger self.namespaces@[n]]
                before.namespaces@.contains_key(n) implies self.namespaces@[n] == (
                NamespaceStateMachine {
                    workers: self.namespaces@[n].workers,
                    ..before.namespaces@[n]
                }) && self.namespaces@[n].workers@ == banded(
                before.namespaces@[n].workers@,
                w,
                band,
            ) by {
                assert(self.namespaces@.dom().contains(n));
                assert(self.namespaces@.contains_key(n));
            }
        }
    }
}

impl Default for Orchestrator {
    fn default() -> (r: Self)
        ensures
            r.namespaces@ == Map::<Seq<char>, NamespaceStateMachine>::empty(),
            r.workers@ == Map::<Seq<char>, WorkerState>::empty(),
            r.clients@ == Map::<ClientId, ()>::empty(),
            r.next_pod_id == 0,
            r.next_segment_id == 1,
            r.active_segment_ids@ == Map::<u16, ()>::empty(),
            r.placement_table@.dom() == Set::<Seq<char>>::empty(),
            r.lease_table@.dom() == Set::<Seq<char>>::empty(),
    {
        Orchestrator::new()
    }
}

/// A change of a worker's bands does not touch who serves whom.
pub proof fn law_bands_keep_links(
    before: Orchestrator,
    worker: Seq<char>,
    bands: PressureBands,
    after: Orchestrator,
)
    requires
        before.with_bands(worker, bands, after),
        before.links().sound(),
    ensures
        after.links().sound(),
{
    let (a, b) = (before.links(), after.links());
    if before.workers@.contains_key(worker) {
        assert(b.homes =~= a.homes);
        assert forall|n: Seq<char>, w: Seq<char>|
            #![trigger b.members[n].contains_key(w)]
            b.members.contains_key(n) && b.members[n].contains_key(w)
                && b.homes.contains_key(w) implies b.homes[w].contains_key(n) by {
            assert(before.namespaces@.contains_key(n));
            assert(after.namespaces@[n].workers@.contains_key(w));
            assert(a.members[n].contains_key(w));
        }
        assert forall|n: Seq<char>, w: Seq<char>|
            #![trigger b.homes[w].contains_key(n)]
            b.homes.contains_key(w) && b.homes[w].contains_key(n) implies b.members.contains_key(n) by {
            assert(a.homes[w].contains_key(n));
            assert(before.namespaces@.dom().contains(n));
        }
    }
}

} // verus!
