//! What holds of the cluster between inputs.
use vstd::prelude::*;

use crate::ids::{NamespaceId, WorkerId};
use crate::namespace::NamespaceStateMachine;
use crate::orchestrator::client::ClientCommand;
use crate::orchestrator::networking::law_assignment_keeps_links_sound;
use crate::orchestrator::step::OrchestratorInput;
use crate::orchestrator::workers::{
    law_arrival_keeps_links_sound, law_departure_keeps_links_sound, lemma_removal_keeps_links_sound,
};
use crate::orchestrator::{ClusterView, Lease, Orchestrator, Task, WorkerState};
use crate::sorted_map::{has_key, increasing, position, Key};

verus! {

impl Orchestrator {
    /// A connected worker that a namespace lists lists the namespace too, a worker lists only
    /// namespaces that are there, and memory is set aside only on connected workers.
    pub open spec fn consistent(self) -> bool {
        &&& self.links().sound()
        &&& forall|p: Seq<char>| #[trigger]
            self.lease_table@.contains_key(p) ==> self.workers@.contains_key(
                self.lease_table@[p].worker_id.id(),
            )
    }

    /// No namespace lists a worker.
    pub open spec fn unlisted(self, worker: Seq<char>) -> bool {
        forall|n: Seq<char>|
            #![trigger self.namespaces@[n]]
            self.namespaces@.contains_key(n) ==> !self.namespaces@[n].workers@.contains_key(worker)
    }

    /// Whether the workers that namespaces list, the namespaces that workers list and the workers
    /// that memory is set aside on agree.
    pub fn check_invariants(&self) -> (r: bool)
        ensures
            r == self.consistent(),
    {
        let n: usize = self.namespaces.len();
        let mut i: usize = 0;
        while i < n
            invariant
                i <= n,
                n == self.namespaces.seq().len(),
                increasing(self.namespaces.seq()),
                forall|a: int|
                    0 <= a < i ==> self.known_to_members((#[trigger] self.namespaces.seq()[a])),
            decreases n - i,
        {
            if !self.check_members(self.namespaces.key_at(i), self.namespaces.value_at(i)) {
                proof {
                    self.lemma_unknown_to_member(i as int);
                }
                return false;
            }
            i = i + 1;
        }
        let m: usize = self.workers.len();
        let mut j: usize = 0;
        while j < m
            invariant
                j <= m,
                m == self.workers.seq().len(),
                increasing(self.workers.seq()),
                forall|a: int|
                    0 <= a < j ==> self.homes_exist((#[trigger] self.workers.seq()[a]).1),
            decreases m - j,
        {
            let ws: &WorkerState = self.workers.value_at(j);
            if !self.check_homes(ws) {
                proof {
                    let w = self.workers.seq()[j as int].0.id();
                    let h = choose|h: Seq<char>|
                        ws.namespaces@.contains_key(h) && !#[trigger] self.namespaces@.contains_key(
                            h,
                        );
                    assert(self.links().homes[w].contains_key(h));
                    assert(!self.links().members.contains_key(h));
                }
                return false;
            }
            j = j + 1;
        }
        proof {
            self.lemma_all_known(n as int, m as int);
        }
        let k: usize = self.lease_table.leases.len();
        let mut l: usize = 0;
        while l < k
            invariant
                l <= k,
                k == self.lease_table.leases.seq().len(),
                increasing(self.lease_table.leases.seq()),
                forall|a: int|
                    0 <= a < l ==> self.workers@.contains_key(
                        (#[trigger] self.lease_table.leases.seq()[a]).1.worker_id.id(),
                    ),
            decreases k - l,
        {
            let lease: &Lease = self.lease_table.leases.value_at(l);
            if !self.workers.contains_key(&lease.worker_id) {
                proof {
                    let p = self.lease_table.leases.seq()[l as int].0.id();
                    assert(self.lease_table@.contains_key(p));
                }
                return false;
            }
            l = l + 1;
        }
        proof {
            let s = self.lease_table.leases.seq();
            assert forall|p: Seq<char>| #[trigger]
                self.lease_table@.contains_key(p) implies self.workers@.contains_key(
                self.lease_table@[p].worker_id.id(),
            ) by {
                assert(has_key(s, p));
                let at = position(s, p);
                assert(0 <= at < s.len() && s[at].0.id() == p);
                assert(self.workers@.contains_key(s[at].1.worker_id.id()));
            }
        }
        true
    }

    /// Every connected worker that a namespace lists lists the namespace.
    pub open spec fn known_to_members(self, entry: (NamespaceId, NamespaceStateMachine)) -> bool {
        forall|w: Seq<char>| #[trigger]
            entry.1.workers@.contains_key(w) && self.workers@.contains_key(w)
                ==> self.workers@[w].namespaces@.contains_key(entry.0.id())
    }

    /// Every namespace that a worker lists is there.
    pub open spec fn homes_exist(self, ws: WorkerState) -> bool {
        forall|h: Seq<char>| #[trigger]
            ws.namespaces@.contains_key(h) ==> self.namespaces@.contains_key(h)
    }

    fn check_members(&self, namespace_id: &NamespaceId, ns: &NamespaceStateMachine) -> (r: bool)
        ensures
            r == self.known_to_members((*namespace_id, *ns)),
    {
        let n: usize = ns.workers.len();
        let ghost s = ns.workers.seq();
        let mut i: usize = 0;
        while i < n
            invariant
                i <= n,
                n == s.len(),
                s == ns.workers.seq(),
                forall|a: int|
                    0 <= a < i && self.workers@.contains_key((#[trigger] s[a]).0.id())
                        ==> self.workers@[s[a].0.id()].namespaces@.contains_key(namespace_id.id()),
            decreases n - i,
        {
            let w: &WorkerId = ns.workers.key_at(i);
            if let Some(ws) = self.workers.get(w) {
                if !ws.namespaces.contains_key(namespace_id) {
                    assert(ns.workers@.contains_key(w.id()));
                    return false;
                }
            }
            i = i + 1;
        }
        proof {
            assert forall|w: Seq<char>| #[trigger]
                ns.workers@.contains_key(w) && self.workers@.contains_key(
                    w,
                ) implies self.workers@[w].namespaces@.contains_key(namespace_id.id()) by {
                assert(has_key(s, w));
                let at = position(s, w);
                assert(0 <= at < s.len() && s[at].0.id() == w);
            }
        }
        true
    }

    fn check_homes(&self, ws: &WorkerState) -> (r: bool)
        ensures
            r == self.homes_exist(*ws),
    {
        let n: usize = ws.namespaces.len();
        let ghost s = ws.namespaces.seq();
        let mut i: usize = 0;
        while i < n
            invariant
                i <= n,
                n == s.len(),
                s == ws.namespaces.seq(),
                forall|a: int|
                    0 <= a < i ==> self.namespaces@.contains_key((#[trigger] s[a]).0.id()),
            decreases n - i,
        {
            let h: &NamespaceId = ws.namespaces.key_at(i);
            if !self.namespaces.contains_key(h) {
                assert(ws.namespaces@.contains_key(h.id()));
                return false;
            }
            i = i + 1;
        }
        proof {
            assert forall|h: Seq<char>| #[trigger]
                ws.namespaces@.contains_key(h) implies self.namespaces@.contains_key(h) by {
                assert(has_key(s, h));
                let at = position(s, h);
                assert(0 <= at < s.len() && s[at].0.id() == h);
            }
        }
        true
    }

    proof fn lemma_unknown_to_member(self, i: int)
        requires
            0 <= i < self.namespaces.seq().len(),
            increasing(self.namespaces.seq()),
            !self.known_to_members(self.namespaces.seq()[i]),
        ensures
            !self.links().sound(),
    {
        let s = self.namespaces.seq();
        let n = s[i].0.id();
        crate::sorted_map::lemma_position_unique(s, i);
        let w = choose|w: Seq<char>| #[trigger]
            s[i].1.workers@.contains_key(w) && self.workers@.contains_key(w)
                && !self.workers@[w].namespaces@.contains_key(n);
        assert(self.links().members[n].contains_key(w));
        assert(!self.links().homes[w].contains_key(n));
    }

    proof fn lemma_all_known(self, n: int, m: int)
        requires
            n == self.namespaces.seq().len(),
            m == self.workers.seq().len(),
            forall|a: int|
                0 <= a < n ==> self.known_to_members((#[trigger] self.namespaces.seq()[a])),
            forall|a: int| 0 <= a < m ==> self.homes_exist((#[trigger] self.workers.seq()[a]).1),
        ensures
            self.links().sound(),
    {
        let (s, t) = (self.namespaces.seq(), self.workers.seq());
        let links = self.links();
        assert forall|n: Seq<char>, w: Seq<char>|
            #![trigger links.members[n].contains_key(w)]
            links.members.contains_key(n) && links.members[n].contains_key(w)
                && links.homes.contains_key(w) implies links.homes[w].contains_key(n) by {
            assert(has_key(s, n));
            let at = position(s, n);
            assert(0 <= at < s.len() && s[at].0.id() == n);
            assert(self.known_to_members(s[at]));
            assert(s[at].1.workers@.contains_key(w));
        }
        assert forall|n: Seq<char>, w: Seq<char>|
            #![trigger links.homes[w].contains_key(n)]
            links.homes.contains_key(w) && links.homes[w].contains_key(
                n,
            ) implies links.members.contains_key(n) by {
            assert(has_key(t, w));
            let at = position(t, w);
            assert(0 <= at < t.len() && t[at].0.id() == w);
            assert(self.homes_exist(t[at].1));
            assert(t[at].1.namespaces@.contains_key(n));
        }
    }
}

/// An empty cluster is consistent.
pub proof fn law_new_cluster_is_consistent(cluster: Orchestrator)
    requires
        cluster.namespaces@ == Map::<Seq<char>, NamespaceStateMachine>::empty(),
        cluster.workers@ == Map::<Seq<char>, WorkerState>::empty(),
        cluster.lease_table@.dom() == Set::<Seq<char>>::empty(),
    ensures
        cluster.consistent(),
{
    assert forall|p: Seq<char>| #[trigger] cluster.lease_table@.contains_key(p) implies false by {
        assert(cluster.lease_table@.dom().contains(p));
    }
}

proof fn lemma_all_assigned_sound(
    cluster: Orchestrator,
    namespace: Seq<char>,
    workers: Seq<(WorkerId, WorkerState)>,
)
    requires
        cluster.links().sound(),
        cluster.namespaces@.contains_key(namespace),
    ensures
        cluster.with_all_assigned(namespace, workers).sound(),
        cluster.with_all_assigned(namespace, workers).members.contains_key(namespace),
    decreases workers.len(),
{
    if workers.len() > 0 {
        let front = workers.drop_last();
        lemma_all_assigned_sound(cluster, namespace, front);
        let w = workers.last().0.id();
        law_assignment_keeps_links_sound(
            cluster.with_all_assigned(namespace, front),
            namespace,
            w,
            cluster.first_pool(w),
        );
    }
}

proof fn lemma_opened_sound(before: Orchestrator, mid: Orchestrator, namespace: Seq<char>)
    requires
        before.links().sound(),
        !before.namespaces@.contains_key(namespace),
        mid.workers == before.workers,
        mid.namespaces@ == before.namespaces@.insert(namespace, mid.namespaces@[namespace]),
        mid.namespaces@[namespace].workers@.dom() == Set::<Seq<char>>::empty(),
    ensures
        mid.links().sound(),
{
    let (a, b) = (before.links(), mid.links());
    assert forall|n: Seq<char>, w: Seq<char>|
        #![trigger b.members[n].contains_key(w)]
        b.members.contains_key(n) && b.members[n].contains_key(w) && b.homes.contains_key(
            w,
        ) implies b.homes[w].contains_key(n) by {
        if n == namespace {
            assert(mid.namespaces@[namespace].workers@.dom().contains(w));
        } else {
            assert(a.members[n].contains_key(w));
        }
    }
    assert forall|n: Seq<char>, w: Seq<char>|
        #![trigger b.homes[w].contains_key(n)]
        b.homes.contains_key(w) && b.homes[w].contains_key(n) implies b.members.contains_key(n) by {
        assert(a.homes[w].contains_key(n));
    }
}

/// The cluster stays consistent over every input. A worker that arrives is one that no namespace
/// still lists.
pub proof fn law_step_keeps_cluster_consistent(
    before: Orchestrator,
    input: OrchestratorInput,
    after: Orchestrator,
    out: ClusterView,
    next: Seq<Task>,
)
    requires
        before.takes(input, after, out, next),
        before.consistent(),
        increasing(before.namespaces.seq()),
        input matches OrchestratorInput::WorkerConnected { worker_id, .. }
            ==> before.workers@.contains_key(worker_id.id()) || before.unlisted(worker_id.id()),
    ensures
        after.consistent(),
{
    match input {
        OrchestratorInput::ClientCommand { client_id, command } => {
            if let ClientCommand::CreateNamespace { namespace_id, spec } = command {
                if !before.namespaces@.contains_key(namespace_id.id()) {
                    let n = namespace_id.id();
                    let (segment_id, mid) = choose|segment_id: u16, mid: Orchestrator|
                        {
                            &&& #[trigger] before.opened(namespace_id, spec, segment_id, mid)
                            &&& mid.only_links_differ(after)
                            &&& after.links() == mid.with_all_assigned(n, mid.workers.seq())
                            &&& out == after.registry_out(
                                mid.assignments_of(
                                    namespace_id,
                                    mid.workers.seq(),
                                    ClusterView::nothing(),
                                ),
                            ).with_client_event(
                                client_id,
                                crate::output::ClientEventView::Done,
                            )
                        };
                    assert(mid.namespaces@[n].workers@.dom() =~= Set::<Seq<char>>::empty());
                    lemma_opened_sound(before, mid, n);
                    assert(mid.namespaces@.contains_key(n));
                    lemma_all_assigned_sound(mid, n, mid.workers.seq());
                    lemma_leases_stay(before, after);
                }
            }
        },
        OrchestratorInput::WorkerConnected { worker_id, capabilities, wg_config, tunnel_config } => {
            if before.workers@.contains_key(worker_id.id()) {
                law_departure_keeps_links_sound(before, worker_id, after, next.drop_last());
                lemma_departure_keeps_leases(before, worker_id, after, next.drop_last());
            } else {
                law_arrival_keeps_links_sound(
                    before,
                    worker_id,
                    capabilities,
                    wg_config,
                    tunnel_config,
                    after,
                    ClusterView::nothing(),
                    out,
                );
                lemma_arrival_keeps_leases(
                    before,
                    worker_id,
                    capabilities,
                    wg_config,
                    tunnel_config,
                    after,
                    ClusterView::nothing(),
                    out,
                );
            }
        },
        OrchestratorInput::WorkerDisconnected { worker_id } => {
            law_departure_keeps_links_sound(before, worker_id, after, next);
            lemma_departure_keeps_leases(before, worker_id, after, next);
        },
        _ => {},
    }
}

proof fn lemma_leases_stay(before: Orchestrator, after: Orchestrator)
    requires
        before.consistent(),
        after.lease_table == before.lease_table,
        before.workers@.dom().subset_of(after.workers@.dom()),
        after.links().sound(),
    ensures
        after.consistent(),
{
    assert forall|p: Seq<char>| #[trigger]
        after.lease_table@.contains_key(p) implies after.workers@.contains_key(
        after.lease_table@[p].worker_id.id(),
    ) by {
        assert(before.lease_table@.contains_key(p));
        assert(before.workers@.dom().contains(before.lease_table@[p].worker_id.id()));
        assert(after.workers@.dom().contains(before.lease_table@[p].worker_id.id()));
    }
}

proof fn lemma_departure_keeps_leases(
    before: Orchestrator,
    worker_id: WorkerId,
    after: Orchestrator,
    next: Seq<Task>,
)
    requires
        before.departed(worker_id, after, next),
        before.consistent(),
        after.links().sound(),
    ensures
        after.consistent(),
{
    assert forall|p: Seq<char>| #[trigger]
        after.lease_table@.contains_key(p) implies after.workers@.contains_key(
        after.lease_table@[p].worker_id.id(),
    ) by {
        assert(before.lease_table@.contains_key(p));
    }
}

proof fn lemma_arrival_keeps_leases(
    before: Orchestrator,
    worker_id: WorkerId,
    capabilities: crate::orchestrator::WorkerCapabilities,
    wg_config: Option<crate::orchestrator::WorkerWgConfig>,
    tunnel_config: Option<crate::orchestrator::WorkerTunnelConfig>,
    after: Orchestrator,
    out: ClusterView,
    out_after: ClusterView,
)
    requires
        before.welcomed(
            worker_id,
            capabilities,
            wg_config,
            tunnel_config,
            after,
            out,
            out_after,
        ),
        before.consistent(),
        after.links().sound(),
    ensures
        after.consistent(),
{
    let mid = choose|mid: Orchestrator|
        {
            let w = worker_id.id();
            let list = crate::orchestrator::workers::assignable(before.namespaces.seq(), w);
            &&& #[trigger] before.joined_by(worker_id, capabilities, wg_config, tunnel_config, mid)
            &&& mid.only_links_differ(after)
            &&& after.links() == mid.links().assigned_to_each(list, w, mid.first_pool(w))
            &&& out_after == after.registry_out(mid.assignments_to(list, worker_id, out))
        };
    assert(before.workers@.dom().subset_of(after.workers@.dom())) by {
        assert forall|x: Seq<char>| before.workers@.dom().contains(
            x,
        ) implies after.workers@.dom().contains(x) by {
            assert(mid.workers@.dom().contains(x));
        }
    }
    lemma_leases_stay(before, after);
}

/// The cluster stays consistent over every task that it does itself.
pub proof fn law_tasks_keep_cluster_consistent(
    before: Orchestrator,
    task: Task,
    after: Orchestrator,
    out: ClusterView,
    out_after: ClusterView,
    next: Seq<Task>,
)
    requires
        before.does(task, after, out, out_after, next),
        before.consistent(),
        task matches Task::Welcome { worker_id, .. } ==> before.unlisted(worker_id.id())
            && increasing(before.namespaces.seq()),
    ensures
        after.consistent(),
{
    match task {
        Task::RemoveNamespace { namespace_id } => {
            lemma_removal_keeps_links_sound(before, namespace_id.id(), after);
            assert forall|p: Seq<char>| #[trigger]
                after.lease_table@.contains_key(p) implies after.workers@.contains_key(
                after.lease_table@[p].worker_id.id(),
            ) by {
                assert(before.lease_table@.contains_key(p));
                assert(after.workers@.dom().contains(before.lease_table@[p].worker_id.id()));
            }
        },
        Task::Welcome { worker_id, capabilities, wg_config, tunnel_config } => {
            law_arrival_keeps_links_sound(
                before,
                worker_id,
                capabilities,
                wg_config,
                tunnel_config,
                after,
                out,
                out_after,
            );
            lemma_arrival_keeps_leases(
                before,
                worker_id,
                capabilities,
                wg_config,
                tunnel_config,
                after,
                out,
                out_after,
            );
        },
        _ => {},
    }
}

/// The cluster stays consistent when a namespace has run: a run brings no worker in.
pub proof fn law_runs_keep_cluster_consistent(
    before: Orchestrator,
    namespace: Seq<char>,
    ran: NamespaceStateMachine,
    after: Orchestrator,
)
    requires
        before.consistent(),
        before.namespaces@.contains_key(namespace),
        forall|w: Seq<char>| #[trigger]
            ran.workers@.contains_key(w) ==> before.namespaces@[namespace].workers@.contains_key(w),
        after.workers == before.workers,
        after.lease_table == before.lease_table,
        after.namespaces@ == before.namespaces@.insert(namespace, ran),
    ensures
        after.consistent(),
{
    let (a, b) = (before.links(), after.links());
    assert forall|n: Seq<char>, w: Seq<char>|
        #![trigger b.members[n].contains_key(w)]
        b.members.contains_key(n) && b.members[n].contains_key(w) && b.homes.contains_key(
            w,
        ) implies b.homes[w].contains_key(n) by {
        if n == namespace {
            assert(ran.workers@.contains_key(w));
        }
        assert(a.members[n].contains_key(w));
    }
    assert forall|n: Seq<char>, w: Seq<char>|
        #![trigger b.homes[w].contains_key(n)]
        b.homes.contains_key(w) && b.homes[w].contains_key(n) implies b.members.contains_key(n) by {
        assert(a.homes[w].contains_key(n));
    }
}

} // verus!
