//! Which worker gets which pod.
use vstd::prelude::*;

use crate::ids::{ArtifactId, NamespaceId, PodId, WorkerId, WorkloadId};
use crate::namespace::step::NamespaceInput;
use crate::namespace::NamespaceStateMachine;
use crate::orchestrator::{Orchestrator, Task};
use crate::pod_map::on_worker;
use crate::sorted_map::{lemma_position_unique, position, Key};
use crate::text::{decimal, law_decimal_injective, lex_before, push_decimal};
use crate::types::{FabricStatus, NamespaceStatus, NamespaceWorkerState};
use crate::workload::{Workload, WorkloadState};

verus! {

/// The name of the `n`th pod.
pub open spec fn pod_name(n: nat) -> Seq<char> {
    "pod-"@ + decimal(n)
}

/// No two pods have the same name.
pub proof fn law_pod_names_differ(a: nat, b: nat)
    requires
        pod_name(a) == pod_name(b),
    ensures
        a == b,
{
    let p = "pod-"@;
    assert(decimal(a) =~= pod_name(a).skip(p.len() as int));
    assert(decimal(b) =~= pod_name(b).skip(p.len() as int));
    law_decimal_injective(a, b);
}

/// The workloads of a namespace that wait for a worker, each with the task to find one.
pub open spec fn waiting_in(
    namespace_id: NamespaceId,
    workloads: Seq<(WorkloadId, Workload)>,
) -> Seq<Task>
    decreases workloads.len(),
{
    if workloads.len() == 0 {
        seq![]
    } else {
        let rest = waiting_in(namespace_id, workloads.drop_last());
        if workloads.last().1.status.state == WorkloadState::WaitingForCapacity {
            rest.push(Task::Launch { namespace_id, workload_id: workloads.last().0 })
        } else {
            rest
        }
    }
}

/// All workloads that wait for a worker, each with the task to find one. Namespaces on their way
/// out are passed over.
pub open spec fn waiting(namespaces: Seq<(NamespaceId, NamespaceStateMachine)>) -> Seq<Task>
    decreases namespaces.len(),
{
    if namespaces.len() == 0 {
        seq![]
    } else {
        let rest = waiting(namespaces.drop_last());
        let last = namespaces.last();
        if last.1.status == NamespaceStatus::Destroying {
            rest
        } else {
            rest + waiting_in(last.0, last.1.workloads.seq())
        }
    }
}

/// How a worker compares with others: its pressure first, then its pods, then its name.
pub open spec fn better(a: (int, nat, Seq<char>), b: (int, nat, Seq<char>)) -> bool {
    a.0 < b.0 || (a.0 == b.0 && (a.1 < b.1 || (a.1 == b.1 && lex_before(a.2, b.2))))
}

impl Orchestrator {
    /// A worker can take a pod of a namespace: its fabric is up, it is connected, and it is not hard
    /// pressed.
    pub open spec fn eligible(self, ns: NamespaceStateMachine, worker: Seq<char>) -> bool {
        &&& ns.workers@.contains_key(worker)
        &&& ns.workers@[worker].fabric_status == FabricStatus::Active
        &&& self.workers@.contains_key(worker)
        &&& self.workers@[worker].pressure_bands.worst().level() < 2
    }

    /// What a worker is compared by.
    pub open spec fn load(self, ns: NamespaceStateMachine, worker: Seq<char>) -> (
        int,
        nat,
        Seq<char>,
    ) {
        (
            self.workers@[worker].pressure_bands.worst().level(),
            on_worker(ns.pod_map@, worker).len(),
            worker,
        )
    }

    /// A worker is the best that a namespace has.
    pub open spec fn best(self, ns: NamespaceStateMachine, worker: Seq<char>) -> bool {
        &&& self.eligible(ns, worker)
        &&& forall|o: Seq<char>| #[trigger]
            self.eligible(ns, o) && o != worker ==> better(self.load(ns, worker), self.load(ns, o))
    }

    /// The worker for the next pod of a namespace.
    pub fn select_worker_for_pod(&self, namespace_id: &NamespaceId) -> (r: Option<WorkerId>)
        ensures
            match r {
                Some(w) => self.namespaces@.contains_key(namespace_id.id()) && self.best(
                    self.namespaces@[namespace_id.id()],
                    w.id(),
                ),
                None => !self.namespaces@.contains_key(namespace_id.id()) || forall|o: Seq<char>|
                    !(#[trigger] self.eligible(self.namespaces@[namespace_id.id()], o)),
            },
    {
        let ns: &NamespaceStateMachine = match self.namespaces.get(namespace_id) {
            Some(ns) => ns,
            None => {
                return None;
            },
        };
        let n: usize = ns.workers.len();
        let ghost s = ns.workers.seq();
        let mut choice: Option<usize> = None;
        let mut choice_rank: u8 = 0;
        let mut choice_pods: usize = 0;
        let mut i: usize = 0;
        while i < n
            invariant
                n == s.len(),
                s == ns.workers.seq(),
                crate::sorted_map::increasing(s),
                i <= n,
                match choice {
                    Some(c) => {
                        &&& c < i
                        &&& self.eligible(*ns, s[c as int].0.id())
                        &&& self.load(*ns, s[c as int].0.id()) == (
                            choice_rank as int,
                            choice_pods as nat,
                            s[c as int].0.id(),
                        )
                        &&& forall|j: int|
                            0 <= j < i && j != c && self.eligible(*ns, (#[trigger] s[j]).0.id())
                                ==> better(
                                self.load(*ns, s[c as int].0.id()),
                                self.load(*ns, s[j].0.id()),
                            )
                    },
                    None => forall|j: int|
                        0 <= j < i ==> !self.eligible(*ns, (#[trigger] s[j]).0.id()),
                },
            decreases n - i,
        {
            let worker_id: &WorkerId = ns.workers.key_at(i);
            let member: &NamespaceWorkerState = ns.workers.value_at(i);
            proof {
                lemma_position_unique(s, i as int);
            }
            let mut candidate: bool = false;
            let mut rank: u8 = 0;
            if member.fabric_status == FabricStatus::Active {
                if let Some(ws) = self.workers.get(worker_id) {
                    rank = ws.pressure_bands.max_band().rank();
                    candidate = rank < 2;
                }
            }
            assert(candidate == self.eligible(*ns, worker_id.id()));
            if candidate {
                let pods: usize = ns.pod_map.worker_pod_count(worker_id);
                let wins: bool = match choice {
                    Some(_) => rank < choice_rank || (rank == choice_rank && pods < choice_pods),
                    None => true,
                };
                if wins {
                    choice = Some(i);
                    choice_rank = rank;
                    choice_pods = pods;
                }
            }
            i = i + 1;
        }
        match choice {
            Some(c) => {
                let r: WorkerId = ns.workers.key_at(c).clone();
                proof {
                    assert forall|o: Seq<char>| #[trigger]
                        self.eligible(*ns, o) && o != r.id() implies better(
                        self.load(*ns, r.id()),
                        self.load(*ns, o),
                    ) by {
                        let p = position(s, o);
                        assert(s[p].0.id() == o);
                    }
                }
                Some(r)
            },
            None => {
                proof {
                    assert forall|o: Seq<char>| !(#[trigger] self.eligible(*ns, o)) by {
                        if self.eligible(*ns, o) {
                            let p = position(s, o);
                            assert(s[p].0.id() == o);
                        }
                    }
                }
                None
            },
        }
    }

    /// A new name for a pod.
    pub fn gen_pod_id(&mut self) -> (r: PodId)
        requires
            old(self).next_pod_id < u64::MAX,
        ensures
            r.0@ == pod_name(old(self).next_pod_id as nat),
            *final(self) == (Orchestrator {
                next_pod_id: (old(self).next_pod_id + 1) as u64,
                ..*old(self)
            }),
    {
        let id: u64 = self.next_pod_id;
        self.next_pod_id = id + 1;
        let mut name: String = "pod-".to_owned();
        push_decimal(&mut name, id);
        PodId(name)
    }

    /// Every pod has a name that was given out.
    pub open spec fn pods_numbered(self) -> bool {
        forall|n: Seq<char>, p: Seq<char>|
            #![trigger self.namespaces@[n].pod_map@.contains_key(p)]
            self.namespaces@.contains_key(n) && self.namespaces@[n].pod_map@.contains_key(p)
                ==> exists|k: nat| k < self.next_pod_id && p == #[trigger] pod_name(k)
    }

    /// Finds a worker for a pod of a workload. Without one the workload keeps waiting.
    pub fn launch(&mut self, namespace_id: &NamespaceId, workload_id: &WorkloadId) -> (r: Vec<Task>)
        requires
            old(self).next_pod_id < u64::MAX,
        ensures
            if exists|w: Seq<char>|
                old(self).namespaces@.contains_key(namespace_id.id()) && #[trigger] old(
                    self,
                ).eligible(old(self).namespaces@[namespace_id.id()], w) {
                &&& *final(self) == (Orchestrator {
                    next_pod_id: (old(self).next_pod_id + 1) as u64,
                    ..*old(self)
                })
                &&& r@.len() == 1
                &&& r@[0] matches Task::Run {
                    namespace_id: n,
                    input: NamespaceInput::LaunchPod { workload_id: wl, worker_id, pod_id },
                    scheduled: true,
                } && n == *namespace_id && wl == *workload_id && pod_id.0@ == pod_name(
                    old(self).next_pod_id as nat,
                ) && old(self).best(old(self).namespaces@[namespace_id.id()], worker_id.id())
            } else {
                *final(self) == *old(self) && r@.len() == 0
            },
    {
        let mut r: Vec<Task> = Vec::new();
        match self.select_worker_for_pod(namespace_id) {
            Some(worker_id) => {
                let pod_id: PodId = self.gen_pod_id();
                r.push(
                    Task::Run {
                        namespace_id: namespace_id.clone(),
                        input: NamespaceInput::LaunchPod {
                            workload_id: workload_id.clone(),
                            worker_id,
                            pod_id,
                        },
                        scheduled: true,
                    },
                );
                proof {
                    let ns = old(self).namespaces@[namespace_id.id()];
                    assert(old(self).eligible(ns, worker_id.id()));
                }
            },
            None => {},
        }
        r
    }

    /// Lets a workload go on where its snapshot lies. A snapshot that is nowhere is passed over; the
    /// name is spent all the same.
    pub fn resume(
        &mut self,
        namespace_id: &NamespaceId,
        workload_id: &WorkloadId,
        artifact_id: &ArtifactId,
    ) -> (r: Vec<Task>)
        requires
            old(self).next_pod_id < u64::MAX,
        ensures
            *final(self) == (Orchestrator {
                next_pod_id: (old(self).next_pod_id + 1) as u64,
                ..*old(self)
            }),
            if old(self).placement_table@.contains_key(artifact_id.id()) && old(
                self,
            ).namespaces@.contains_key(namespace_id.id()) {
                let place = old(self).placement_table@[artifact_id.id()];
                &&& r@.len() == 1
                &&& r@[0] matches Task::Run {
                    namespace_id: n,
                    input: NamespaceInput::ResumePod {
                        workload_id: wl,
                        worker_id,
                        pod_id,
                        artifact_id: a,
                        pool_id,
                    },
                    scheduled: true,
                } && n == *namespace_id && wl == *workload_id && a == *artifact_id && worker_id
                    == place.worker_id && pool_id == place.pool_id && pod_id.0@ == pod_name(
                    old(self).next_pod_id as nat,
                )
            } else {
                r@.len() == 0
            },
    {
        let mut r: Vec<Task> = Vec::new();
        let pod_id: PodId = self.gen_pod_id();
        if self.namespaces.contains_key(namespace_id) {
            if let Some(place) = self.placement_table.get(artifact_id) {
                r.push(
                    Task::Run {
                        namespace_id: namespace_id.clone(),
                        input: NamespaceInput::ResumePod {
                            workload_id: workload_id.clone(),
                            worker_id: place.worker_id.clone(),
                            pod_id,
                            artifact_id: artifact_id.clone(),
                            pool_id: place.pool_id.clone(),
                        },
                        scheduled: true,
                    },
                );
            }
        }
        r
    }

    /// Finds workers for all workloads that wait, in the order of namespaces and workloads.
    pub fn schedule_waiting_pods(&self) -> (r: Vec<Task>)
        ensures
            r@ == waiting(self.namespaces.seq()),
    {
        let n: usize = self.namespaces.len();
        let ghost s = self.namespaces.seq();
        let mut r: Vec<Task> = Vec::new();
        let mut i: usize = 0;
        assert(s.take(0) =~= Seq::<(NamespaceId, NamespaceStateMachine)>::empty());
        while i < n
            invariant
                n == s.len(),
                s == self.namespaces.seq(),
                i <= n,
                r@ == waiting(s.take(i as int)),
            decreases n - i,
        {
            assert(s.take(i + 1).drop_last() =~= s.take(i as int));
            assert(s.take(i + 1).last() == s[i as int]);
            let ns: &NamespaceStateMachine = self.namespaces.value_at(i);
            if ns.status != NamespaceStatus::Destroying {
                let mut more = Self::waiting_of(self.namespaces.key_at(i), ns);
                r.append(&mut more);
            }
            i = i + 1;
        }
        assert(s.take(i as int) =~= s);
        r
    }

    fn waiting_of(namespace_id: &NamespaceId, ns: &NamespaceStateMachine) -> (r: Vec<Task>)
        ensures
            r@ == waiting_in(*namespace_id, ns.workloads.seq()),
    {
        let n: usize = ns.workloads.len();
        let ghost s = ns.workloads.seq();
        let mut r: Vec<Task> = Vec::new();
        let mut i: usize = 0;
        assert(s.take(0) =~= Seq::<(WorkloadId, Workload)>::empty());
        while i < n
            invariant
                n == s.len(),
                s == ns.workloads.seq(),
                i <= n,
                r@ == waiting_in(*namespace_id, s.take(i as int)),
            decreases n - i,
        {
            assert(s.take(i + 1).drop_last() =~= s.take(i as int));
            assert(s.take(i + 1).last() == s[i as int]);
            if let WorkloadState::WaitingForCapacity = ns.workloads.value_at(i).status.state {
                r.push(
                    Task::Launch {
                        namespace_id: namespace_id.clone(),
                        workload_id: ns.workloads.key_at(i).clone(),
                    },
                );
            }
            i = i + 1;
        }
        assert(s.take(i as int) =~= s);
        r
    }
}

/// Where every pod has a name that was given out, the next name is that of no pod.
pub proof fn law_next_pod_is_new(cluster: Orchestrator, namespace: Seq<char>)
    requires
        cluster.pods_numbered(),
        cluster.namespaces@.contains_key(namespace),
    ensures
        !cluster.namespaces@[namespace].pod_map@.contains_key(
            pod_name(cluster.next_pod_id as nat),
        ),
{
    let p = pod_name(cluster.next_pod_id as nat);
    if cluster.namespaces@[namespace].pod_map@.contains_key(p) {
        let k = choose|k: nat| k < cluster.next_pod_id && p == #[trigger] pod_name(k);
        law_pod_names_differ(k, cluster.next_pod_id as nat);
    }
}

/// A namespace has at most one best worker.
pub proof fn law_best_worker_is_unique(
    cluster: Orchestrator,
    ns: NamespaceStateMachine,
    a: Seq<char>,
    b: Seq<char>,
)
    requires
        cluster.best(ns, a),
        cluster.best(ns, b),
    ensures
        a == b,
{
    if a != b {
        WorkerId::before_irreflexive(a);
        assert(better(cluster.load(ns, a), cluster.load(ns, b)));
        assert(better(cluster.load(ns, b), cluster.load(ns, a)));
        if lex_before(a, b) && lex_before(b, a) {
            WorkerId::before_transitive(a, b, a);
        }
    }
}

/// A workload of a namespace waits for a worker.
pub open spec fn waits(
    namespace: (NamespaceId, NamespaceStateMachine),
    workload_id: WorkloadId,
) -> bool {
    &&& namespace.1.status != NamespaceStatus::Destroying
    &&& waits_in(namespace.1.workloads.seq(), workload_id)
}

pub open spec fn waits_in(workloads: Seq<(WorkloadId, Workload)>, workload_id: WorkloadId) -> bool {
    exists|j: int|
        0 <= j < workloads.len() && (#[trigger] workloads[j]).0 == workload_id
            && workloads[j].1.status.state == WorkloadState::WaitingForCapacity
}

proof fn lemma_waiting_in(
    namespace_id: NamespaceId,
    workloads: Seq<(WorkloadId, Workload)>,
    workload_id: WorkloadId,
)
    ensures
        waiting_in(namespace_id, workloads).contains(Task::Launch { namespace_id, workload_id })
            <==> waits_in(workloads, workload_id),
        forall|k: int|
            0 <= k < waiting_in(namespace_id, workloads).len() ==> ((#[trigger] waiting_in(
                namespace_id,
                workloads,
            )[k]) matches Task::Launch { namespace_id: n, .. } && n == namespace_id),
    decreases workloads.len(),
{
    let all = waiting_in(namespace_id, workloads);
    let task = Task::Launch { namespace_id, workload_id };
    if workloads.len() > 0 {
        let fewer = workloads.drop_last();
        let rest = waiting_in(namespace_id, fewer);
        lemma_waiting_in(namespace_id, fewer, workload_id);
        if rest.contains(task) {
            let k = choose|k: int| 0 <= k < rest.len() && rest[k] == task;
            assert(all[k] == task);
            let j = choose|j: int|
                0 <= j < fewer.len() && (#[trigger] fewer[j]).0 == workload_id
                    && fewer[j].1.status.state == WorkloadState::WaitingForCapacity;
            assert(workloads[j] == fewer[j]);
        } else if waits_in(workloads, workload_id) {
            let j = choose|j: int|
                0 <= j < workloads.len() && (#[trigger] workloads[j]).0 == workload_id
                    && workloads[j].1.status.state == WorkloadState::WaitingForCapacity;
            if j < fewer.len() {
                assert(fewer[j] == workloads[j]);
            }
            assert(all[all.len() - 1] == task);
        } else if all.contains(task) {
            let k = choose|k: int| 0 <= k < all.len() && all[k] == task;
            if k < rest.len() {
                assert(rest[k] == task);
            } else {
                assert(workloads[workloads.len() - 1].0 == workload_id);
            }
        }
        assert forall|k: int| 0 <= k < all.len() implies ((#[trigger] all[k]) matches Task::Launch {
            namespace_id: n,
            ..
        } && n == namespace_id) by {
            if k < rest.len() {
                assert(all[k] == rest[k]);
            }
        }
    }
}

/// A pod is started for exactly the workloads that wait for one, in the namespaces that are to stay.
pub proof fn law_waiting_are_scheduled(
    namespaces: Seq<(NamespaceId, NamespaceStateMachine)>,
    namespace_id: NamespaceId,
    workload_id: WorkloadId,
)
    ensures
        waiting(namespaces).contains(Task::Launch { namespace_id, workload_id }) <==> exists|i: int|
            0 <= i < namespaces.len() && (#[trigger] namespaces[i]).0 == namespace_id && waits(
                namespaces[i],
                workload_id,
            ),
    decreases namespaces.len(),
{
    let all = waiting(namespaces);
    let task = Task::Launch { namespace_id, workload_id };
    if namespaces.len() > 0 {
        let fewer = namespaces.drop_last();
        let last = namespaces.last();
        let rest = waiting(fewer);
        let own = waiting_in(last.0, last.1.workloads.seq());
        law_waiting_are_scheduled(fewer, namespace_id, workload_id);
        lemma_waiting_in(last.0, last.1.workloads.seq(), workload_id);
        if rest.contains(task) {
            let k = choose|k: int| 0 <= k < rest.len() && rest[k] == task;
            assert(all[k] == task);
            let i = choose|i: int|
                0 <= i < fewer.len() && (#[trigger] fewer[i]).0 == namespace_id && waits(
                    fewer[i],
                    workload_id,
                );
            assert(namespaces[i] == fewer[i]);
        } else if last.0 == namespace_id && waits(last, workload_id) {
            let k = choose|k: int| 0 <= k < own.len() && own[k] == task;
            assert(all[rest.len() + k] == task);
            assert(namespaces[namespaces.len() - 1] == last);
        } else {
            assert forall|i: int| 0 <= i < namespaces.len() implies !((
            #[trigger] namespaces[i]).0 == namespace_id && waits(namespaces[i], workload_id)) by {
                if i < fewer.len() {
                    assert(fewer[i] == namespaces[i]);
                }
            }
            if all.contains(task) {
                let k = choose|k: int| 0 <= k < all.len() && all[k] == task;
                if k < rest.len() {
                    assert(rest[k] == task);
                } else {
                    assert(own[k - rest.len()] == task);
                }
            }
        }
    }
}

} // verus!
