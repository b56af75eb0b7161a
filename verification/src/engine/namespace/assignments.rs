//! Which pod runs on which worker, and under which lease.
use vstd::prelude::*;

use crate::engine::namespace::router::{router_views, RouterOp, RouterOpView};
use crate::sm::{PodId, ScheduleLeaseId, WorkerId};
use crate::sorted_map::{
    as_map, erase, has_key, increasing, lemma_stays_increasing, upsert, SortedMap,
};

verus! {

pub struct Assignments {
    leases: SortedMap<PodId, ScheduleLeaseId>,
    worker_pod_edges: SortedMap<WorkerId, SortedMap<PodId, ()>>,
    pod_worker: SortedMap<PodId, WorkerId>,
}

#[verifier::ext_equal]
pub struct AssignmentsView {
    pub leases: Map<PodId, ScheduleLeaseId>,
    /// The pods that each worker is to run, in order.
    pub edges: Map<WorkerId, Seq<(PodId, ())>>,
    pub pod_worker: Map<PodId, WorkerId>,
}

/// The pods of a list of entries.
pub open spec fn listed(pods: Seq<(PodId, ())>) -> Seq<PodId> {
    pods.map_values(|e: (PodId, ())| e.0)
}

impl AssignmentsView {
    pub open spec fn nothing() -> AssignmentsView {
        AssignmentsView { leases: Map::empty(), edges: Map::empty(), pod_worker: Map::empty() }
    }

    /// The pods that a worker is to run.
    pub open spec fn pods_of(self, worker_id: WorkerId) -> Seq<(PodId, ())> {
        if self.edges.contains_key(worker_id) {
            self.edges[worker_id]
        } else {
            seq![]
        }
    }

    /// With a pod on a worker under a new lease.
    pub open spec fn granted(self, worker_id: WorkerId, pod_id: PodId, lease: u64) -> AssignmentsView {
        AssignmentsView {
            leases: self.leases.insert(pod_id, ScheduleLeaseId(lease)),
            edges: self.edges.insert(worker_id, upsert(self.pods_of(worker_id), pod_id, ())),
            pod_worker: self.pod_worker.insert(pod_id, worker_id),
        }
    }

    /// What brings a pod to a worker under a new lease.
    pub open spec fn grant_ops(self, worker_id: WorkerId, pod_id: PodId, lease: u64) -> Seq<
        RouterOpView,
    > {
        seq![
            RouterOpView::CreateLease { lease: ScheduleLeaseId(lease), worker_id, pod_id },
            RouterOpView::AssignPods {
                worker_id,
                pods: listed(self.granted(worker_id, pod_id, lease).edges[worker_id]),
            },
        ]
    }

    /// With some pods on a worker under new leases. Pods that are not known are left out.
    pub open spec fn all_granted(
        self,
        worker_id: WorkerId,
        pods: Seq<PodId>,
        known: Set<PodId>,
        next: u64,
    ) -> (AssignmentsView, u64, Seq<RouterOpView>)
        decreases pods.len(),
    {
        if pods.len() == 0 {
            (self, next, seq![])
        } else {
            let (a, n, ops) = self.all_granted(worker_id, pods.drop_last(), known, next);
            if known.contains(pods.last()) {
                (
                    a.granted(worker_id, pods.last(), n),
                    (n + 1) as u64,
                    ops + a.grant_ops(worker_id, pods.last(), n),
                )
            } else {
                (a, n, ops)
            }
        }
    }

    /// Without a pod's lease, and without the pod on its worker.
    pub open spec fn revoked(self, pod_id: PodId) -> AssignmentsView {
        AssignmentsView {
            leases: self.leases.remove(pod_id),
            edges: if self.pod_worker.contains_key(pod_id) && self.edges.contains_key(
                self.pod_worker[pod_id],
            ) {
                self.edges.insert(
                    self.pod_worker[pod_id],
                    erase(self.edges[self.pod_worker[pod_id]], pod_id),
                )
            } else {
                self.edges
            },
            pod_worker: self.pod_worker.remove(pod_id),
        }
    }

    /// What takes a pod's lease and its place away.
    pub open spec fn revoke_ops(self, pod_id: PodId) -> Seq<RouterOpView> {
        (if self.leases.contains_key(pod_id) {
            seq![RouterOpView::DestroyLease { lease: self.leases[pod_id] }]
        } else {
            seq![]
        }) + (if self.pod_worker.contains_key(pod_id) && self.edges.contains_key(
            self.pod_worker[pod_id],
        ) {
            let worker_id = self.pod_worker[pod_id];
            seq![
                RouterOpView::AssignPods {
                    worker_id,
                    pods: listed(erase(self.edges[worker_id], pod_id)),
                },
            ]
        } else {
            seq![]
        })
    }

    /// Without a worker. Its pods are on no worker then, but keep their leases.
    pub open spec fn without_worker(self, worker_id: WorkerId) -> AssignmentsView {
        AssignmentsView {
            edges: self.edges.remove(worker_id),
            pod_worker: self.pod_worker.remove_keys(
                Set::new(|p: PodId| has_key(self.pods_of(worker_id), p)),
            ),
            ..self
        }
    }

    /// Every pod that is on a worker is among the pods that the worker is to run.
    pub open spec fn sound(self) -> bool {
        &&& forall|p: PodId| #[trigger]
            self.pod_worker.contains_key(p) ==> has_key(self.pods_of(self.pod_worker[p]), p)
        &&& forall|w: WorkerId| #[trigger] self.edges.contains_key(w) ==> increasing(self.edges[w])
    }
}

impl Assignments {
    pub closed spec fn view(&self) -> AssignmentsView {
        AssignmentsView {
            leases: self.leases@,
            edges: self.worker_pod_edges@.map_values(|m: SortedMap<PodId, ()>| m.seq()),
            pod_worker: self.pod_worker@,
        }
    }

    pub fn new() -> (r: Self)
        ensures
            r@ == AssignmentsView::nothing(),
    {
        let r = Assignments {
            leases: SortedMap::new(),
            worker_pod_edges: SortedMap::new(),
            pod_worker: SortedMap::new(),
        };
        assert(r@ =~= AssignmentsView::nothing());
        r
    }

    /// The pods of a table.
    fn list(pods: &SortedMap<PodId, ()>) -> (r: Vec<PodId>)
        ensures
            r@ == listed(pods.seq()),
    {
        let ghost s = pods.seq();
        let n: usize = pods.len();
        let mut out: Vec<PodId> = Vec::new();
        let mut i: usize = 0;
        while i < n
            invariant
                i <= n,
                n == s.len(),
                s == pods.seq(),
                out@ == listed(s.take(i as int)),
            decreases n - i,
        {
            out.push(*pods.key_at(i));
            i = i + 1;
            assert(out@ =~= listed(s.take(i as int)));
        }
        assert(s.take(i as int) =~= s);
        out
    }

    /// Brings a pod to a worker under a new lease with the number `next`. A pod that is not known is
    /// left alone.
    pub fn apply_grant(
        &mut self,
        worker_id: WorkerId,
        pod_id: PodId,
        known: bool,
        next: &mut u64,
        ops: &mut Vec<RouterOp>,
    )
        requires
            *old(next) < u64::MAX,
        ensures
            known ==> {
                &&& final(self)@ == old(self)@.granted(worker_id, pod_id, *old(next))
                &&& *final(next) == *old(next) + 1
                &&& router_views(final(ops)@) == router_views(old(ops)@) + old(self)@.grant_ops(
                    worker_id,
                    pod_id,
                    *old(next),
                )
            },
            !known ==> {
                &&& *final(self) == *old(self)
                &&& *final(next) == *old(next)
                &&& *final(ops) == *old(ops)
            },
    {
        if !known {
            return;
        }
        let ghost before = router_views(ops@);
        let lease: ScheduleLeaseId = ScheduleLeaseId(*next);
        *next = *next + 1;
        ops.push(RouterOp::CreateLease { lease, worker_id, pod_id });
        self.leases.insert(pod_id, lease);
        self.pod_worker.insert(pod_id, worker_id);
        let mut pods: SortedMap<PodId, ()> = match self.worker_pod_edges.remove(&worker_id) {
            Some(pods) => pods,
            None => SortedMap::new(),
        };
        pods.insert(pod_id, ());
        ops.push(RouterOp::AssignPods { worker_id, pods: Self::list(&pods) });
        self.worker_pod_edges.insert(worker_id, pods);
        proof {
            let g = old(self)@.granted(worker_id, pod_id, *old(next));
            assert(self@ =~= g);
            assert(router_views(ops@) =~= before + old(self)@.grant_ops(
                worker_id,
                pod_id,
                *old(next),
            ));
        }
    }

    /// Takes a pod's lease and its place away.
    pub fn revoke(&mut self, pod_id: PodId, ops: &mut Vec<RouterOp>)
        ensures
            final(self)@ == old(self)@.revoked(pod_id),
            router_views(final(ops)@) == router_views(old(ops)@) + old(self)@.revoke_ops(pod_id),
    {
        let ghost before = router_views(ops@);
        if let Some(lease) = self.leases.remove(&pod_id) {
            ops.push(RouterOp::DestroyLease { lease });
        }
        self.remove_pod_from_worker(pod_id, ops);
        proof {
            assert(self@ =~= old(self)@.revoked(pod_id));
            assert(router_views(ops@) =~= before + old(self)@.revoke_ops(pod_id));
        }
    }

    /// Takes a pod's place away.
    fn remove_pod_from_worker(&mut self, pod_id: PodId, ops: &mut Vec<RouterOp>)
        ensures
            final(self)@ == (AssignmentsView {
                leases: old(self)@.leases,
                ..old(self)@.revoked(pod_id)
            }),
            router_views(final(ops)@) == router_views(old(ops)@) + (AssignmentsView {
                leases: Map::empty(),
                ..old(self)@
            }).revoke_ops(pod_id),
    {
        let ghost before = router_views(ops@);
        if let Some(worker_id) = self.pod_worker.remove(&pod_id) {
            if let Some(mut pods) = self.worker_pod_edges.remove(&worker_id) {
                let _ = pods.remove(&pod_id);
                ops.push(RouterOp::AssignPods { worker_id, pods: Self::list(&pods) });
                self.worker_pod_edges.insert(worker_id, pods);
            }
        }
        proof {
            assert(self@ =~= (AssignmentsView {
                leases: old(self)@.leases,
                ..old(self)@.revoked(pod_id)
            }));
            assert(router_views(ops@) =~= before + (AssignmentsView {
                leases: Map::empty(),
                ..old(self)@
            }).revoke_ops(pod_id));
        }
    }

    /// Forgets a worker.
    pub fn forget_worker(&mut self, worker_id: WorkerId)
        ensures
            final(self)@ == old(self)@.without_worker(worker_id),
    {
        if let Some(pods) = self.worker_pod_edges.remove(&worker_id) {
            let ghost s = pods.seq();
            let n: usize = pods.len();
            let mut i: usize = 0;
            assert(self.pod_worker@ =~= old(self).pod_worker@.remove_keys(
                Set::new(|p: PodId| has_key(s.take(0), p)),
            ));
            while i < n
                invariant
                    i <= n,
                    n == s.len(),
                    s == pods.seq(),
                    self.leases == old(self).leases,
                    self.worker_pod_edges@ == old(self).worker_pod_edges@.remove(worker_id),
                    self.pod_worker@ == old(self).pod_worker@.remove_keys(
                        Set::new(|p: PodId| has_key(s.take(i as int), p)),
                    ),
                decreases n - i,
            {
                let pod: PodId = *pods.key_at(i);
                let _ = self.pod_worker.remove(&pod);
                proof {
                    assert forall|p: PodId|
                        has_key(s.take(i + 1), p) <==> has_key(s.take(i as int), p) || p == pod by {
                        if has_key(s.take(i + 1), p) {
                            let q = crate::sorted_map::position(s.take(i + 1), p);
                            if q < i {
                                assert(s.take(i as int)[q] == s.take(i + 1)[q]);
                            }
                        }
                        if has_key(s.take(i as int), p) {
                            let q = crate::sorted_map::position(s.take(i as int), p);
                            assert(s.take(i + 1)[q] == s.take(i as int)[q]);
                        }
                        assert(s.take(i + 1)[i as int].0 == pod);
                    }
                    assert(self.pod_worker@ =~= old(self).pod_worker@.remove_keys(
                        Set::new(|p: PodId| has_key(s.take(i + 1), p)),
                    ));
                }
                i = i + 1;
            }
            assert(s.take(i as int) =~= s);
        }
        assert(self@ =~= old(self)@.without_worker(worker_id));
    }
}

/// A grant leaves every pod listed at its worker.
pub proof fn law_grant_keeps_pods_listed(
    a: AssignmentsView,
    worker_id: WorkerId,
    pod_id: PodId,
    lease: u64,
)
    requires
        a.sound(),
    ensures
        a.granted(worker_id, pod_id, lease).sound(),
        a.granted(worker_id, pod_id, lease).pod_worker[pod_id] == worker_id,
        a.granted(worker_id, pod_id, lease).leases[pod_id] == ScheduleLeaseId(lease),
{
    let g = a.granted(worker_id, pod_id, lease);
    let before = a.pods_of(worker_id);
    lemma_stays_increasing(before, pod_id, ());
    assert forall|p: PodId| #[trigger] g.pod_worker.contains_key(p) implies has_key(
        g.pods_of(g.pod_worker[p]),
        p,
    ) by {
        assert(as_map(g.edges[worker_id]).contains_key(pod_id));
        if p != pod_id {
            assert(a.pod_worker.contains_key(p));
            if a.pod_worker[p] == worker_id {
                assert(as_map(before).contains_key(p));
                assert(as_map(g.edges[worker_id]).contains_key(p));
            }
        }
    }
}

/// A revocation undoes a grant: the pod has no lease and no worker, and every other pod is as it was.
pub proof fn law_revocation_undoes_grant(
    a: AssignmentsView,
    worker_id: WorkerId,
    pod_id: PodId,
    lease: u64,
    other: PodId,
)
    requires
        a.sound(),
        other != pod_id,
    ensures
        ({
            let r = a.granted(worker_id, pod_id, lease).revoked(pod_id);
            &&& !r.leases.contains_key(pod_id)
            &&& !r.pod_worker.contains_key(pod_id)
            &&& !has_key(r.pods_of(worker_id), pod_id)
            &&& r.leases.contains_key(other) <==> a.leases.contains_key(other)
            &&& r.leases.contains_key(other) ==> r.leases[other] == a.leases[other]
            &&& r.pod_worker.contains_key(other) <==> a.pod_worker.contains_key(other)
            &&& r.pod_worker.contains_key(other) ==> r.pod_worker[other] == a.pod_worker[other]
            &&& has_key(r.pods_of(worker_id), other) <==> has_key(a.pods_of(worker_id), other)
        }),
{
    let g = a.granted(worker_id, pod_id, lease);
    let before = a.pods_of(worker_id);
    lemma_stays_increasing(before, pod_id, ());
    lemma_stays_increasing(g.edges[worker_id], pod_id, ());
    let r = g.revoked(pod_id);
    assert(as_map(r.edges[worker_id]).contains_key(other) <==> as_map(before).contains_key(other));
    assert(!as_map(r.edges[worker_id]).contains_key(pod_id));
}

/// A revocation leaves every pod listed at its worker.
pub proof fn law_revocation_keeps_pods_listed(a: AssignmentsView, pod_id: PodId)
    requires
        a.sound(),
    ensures
        a.revoked(pod_id).sound(),
{
    let r = a.revoked(pod_id);
    if a.pod_worker.contains_key(pod_id) {
        let w = a.pod_worker[pod_id];
        if a.edges.contains_key(w) {
            lemma_stays_increasing(a.edges[w], pod_id, ());
        }
    }
    assert forall|p: PodId| #[trigger] r.pod_worker.contains_key(p) implies has_key(
        r.pods_of(r.pod_worker[p]),
        p,
    ) by {
        assert(a.pod_worker.contains_key(p));
        let x = a.pod_worker[p];
        if a.pod_worker.contains_key(pod_id) && x == a.pod_worker[pod_id]
            && a.edges.contains_key(x) {
            assert(as_map(a.edges[x]).contains_key(p));
            assert(as_map(r.edges[x]).contains_key(p));
        }
    }
}

/// No pod is on a worker that is gone, and every other pod stays listed at its worker.
pub proof fn law_gone_worker_has_no_pods(a: AssignmentsView, worker_id: WorkerId)
    requires
        a.sound(),
    ensures
        a.without_worker(worker_id).sound(),
        forall|p: PodId| #[trigger]
            a.without_worker(worker_id).pod_worker.contains_key(p) ==> a.without_worker(
                worker_id,
            ).pod_worker[p] != worker_id,
{
    let r = a.without_worker(worker_id);
    assert forall|p: PodId| #[trigger] r.pod_worker.contains_key(p) implies r.pod_worker[p]
        != worker_id && has_key(r.pods_of(r.pod_worker[p]), p) by {
        assert(a.pod_worker.contains_key(p));
    }
}

} // verus!
