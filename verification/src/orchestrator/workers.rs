//! Workers that come, go and report on themselves.
use vstd::prelude::*;

use crate::ids::{NamespaceId, PoolId, WorkerId};
use crate::namespace::step::NamespaceInput;
use crate::namespace::NamespaceStateMachine;
use crate::orchestrator::networking::{law_assignment_keeps_links_sound, Links};
use crate::orchestrator::scheduling::waiting;
use crate::orchestrator::{
    leases_off, ClusterView, Orchestrator, OrchestratorOutput, PoolInfo, Task, WorkerCapabilities,
    WorkerCondition, WorkerState, WorkerTunnelConfig, WorkerWgConfig,
};
use crate::sorted_map::{increasing, lemma_position_unique, same_keys, Key, SortedMap};
use crate::types::{NamespaceStatus, PressureBand, PressureBands};

verus! {

/// A worker that was just taken in.
pub open spec fn fresh_worker(
    ws: WorkerState,
    capabilities: WorkerCapabilities,
    wg_config: Option<WorkerWgConfig>,
    tunnel_config: Option<WorkerTunnelConfig>,
) -> bool {
    &&& ws.capabilities == capabilities
    &&& ws.namespaces@ == Map::<Seq<char>, ()>::empty()
    &&& ws.wg_config == wg_config
    &&& ws.tunnel_config == tunnel_config
    &&& ws.conditions@ == Map::<Seq<char>, WorkerCondition>::empty()
    &&& ws.transfer_listen_port is None
    &&& ws.pressure_bands == (PressureBands {
        memory: PressureBand::Normal,
        compute: PressureBand::Normal,
        storage: PressureBand::Normal,
    })
}

/// The namespaces that a new worker is assigned to: all but those on their way out and those that
/// list it already.
pub open spec fn assignable(
    namespaces: Seq<(NamespaceId, NamespaceStateMachine)>,
    worker: Seq<char>,
) -> Seq<NamespaceId>
    decreases namespaces.len(),
{
    if namespaces.len() == 0 {
        seq![]
    } else {
        let rest = assignable(namespaces.drop_last(), worker);
        let last = namespaces.last();
        if last.1.status != NamespaceStatus::Destroying && !last.1.workers@.contains_key(worker) {
            rest.push(last.0)
        } else {
            rest
        }
    }
}

/// Each of the namespaces of a lost worker learns of the loss.
pub open spec fn loss_routed(homes: Seq<(NamespaceId, ())>, worker_id: WorkerId) -> Seq<Task> {
    Seq::new(
        homes.len(),
        |i: int|
            Task::Route {
                namespace_id: homes[i].0,
                input: NamespaceInput::WorkerLost { worker_id },
            },
    )
}

/// The index of the first store of a name.
pub open spec fn pool_index(pools: Seq<PoolInfo>, pool: Seq<char>) -> Option<int>
    decreases pools.len(),
{
    if pools.len() == 0 {
        None
    } else if pools[0].pool_id.id() == pool {
        Some(0)
    } else {
        match pool_index(pools.drop_first(), pool) {
            Some(i) => Some(i + 1),
            None => None,
        }
    }
}

/// `pools` with the sizes that a report gives for one of them. Others are not added.
pub open spec fn with_pool(pools: Seq<PoolInfo>, report: PoolInfo) -> Seq<PoolInfo> {
    match pool_index(pools, report.pool_id.id()) {
        Some(i) => pools.update(
            i,
            PoolInfo {
                pool_id: pools[i].pool_id,
                capacity_bytes: report.capacity_bytes,
                available_bytes: report.available_bytes,
            },
        ),
        None => pools,
    }
}

/// `pools` with the sizes that several reports give.
pub open spec fn with_pools(pools: Seq<PoolInfo>, reports: Seq<PoolInfo>) -> Seq<PoolInfo>
    decreases reports.len(),
{
    if reports.len() == 0 {
        pools
    } else {
        with_pool(with_pools(pools, reports.drop_last()), reports.last())
    }
}

proof fn lemma_pool_index(pools: Seq<PoolInfo>, pool: Seq<char>, n: int)
    requires
        0 <= n <= pools.len(),
        forall|j: int| 0 <= j < n ==> (#[trigger] pools[j]).pool_id.id() != pool,
    ensures
        pool_index(pools, pool) == (match pool_index(pools.skip(n), pool) {
            Some(i) => Some(i + n),
            None => None,
        }),
    decreases n,
{
    if n == 0 {
        assert(pools.skip(0) =~= pools);
    } else {
        assert(pools[0].pool_id.id() != pool);
        let rest = pools.drop_first();
        assert forall|j: int| 0 <= j < n - 1 implies (#[trigger] rest[j]).pool_id.id() != pool by {
            assert(pools[j + 1].pool_id.id() != pool);
        }
        lemma_pool_index(rest, pool, n - 1);
        assert(rest.skip(n - 1) =~= pools.skip(n));
    }
}

fn update_pool(pools: &mut Vec<PoolInfo>, report: &PoolInfo)
    ensures
        final(pools)@ == with_pool(old(pools)@, *report),
{
    let ghost s = pools@;
    let ghost p = report.pool_id.id();
    let mut i: usize = 0;
    while i < pools.len()
        invariant
            i <= pools@.len(),
            pools@ == s,
            p == report.pool_id.id(),
            s == old(pools)@,
            forall|j: int| 0 <= j < i ==> (#[trigger] s[j]).pool_id.id() != p,
        decreases pools@.len() - i,
    {
        if pools[i].pool_id.same(&report.pool_id) {
            proof {
                lemma_pool_index(s, p, i as int);
                assert(s.skip(i as int)[0] == s[i as int]);
            }
            let mut pool: PoolInfo = pools.remove(i);
            pool.capacity_bytes = report.capacity_bytes;
            pool.available_bytes = report.available_bytes;
            pools.insert(i, pool);
            assert(pools@ =~= with_pool(s, *report));
            return;
        }
        i = i + 1;
    }
    proof {
        lemma_pool_index(s, p, s.len() as int);
    }
}

fn update_pools(pools: &mut Vec<PoolInfo>, reports: &Vec<PoolInfo>)
    ensures
        final(pools)@ == with_pools(old(pools)@, reports@),
{
    let mut i: usize = 0;
    assert(reports@.take(0) =~= Seq::<PoolInfo>::empty());
    while i < reports.len()
        invariant
            i <= reports@.len(),
            pools@ == with_pools(old(pools)@, reports@.take(i as int)),
        decreases reports@.len() - i,
    {
        assert(reports@.take(i + 1).drop_last() =~= reports@.take(i as int));
        assert(reports@.take(i + 1).last() == reports@[i as int]);
        update_pool(pools, &reports[i]);
        i = i + 1;
    }
    assert(reports@.take(i as int) =~= reports@);
}

impl Orchestrator {
    /// `mid` is `self` with a worker that was just taken in.
    pub open spec fn joined_by(
        self,
        worker_id: WorkerId,
        capabilities: WorkerCapabilities,
        wg_config: Option<WorkerWgConfig>,
        tunnel_config: Option<WorkerTunnelConfig>,
        mid: Orchestrator,
    ) -> bool {
        &&& mid == Orchestrator { workers: mid.workers, ..self }
        &&& mid.workers@ == self.workers@.insert(worker_id.id(), mid.workers@[worker_id.id()])
        &&& fresh_worker(mid.workers@[worker_id.id()], capabilities, wg_config, tunnel_config)
    }

    /// What the arrival of a worker changes and gives out: it is assigned to the namespaces that it
    /// can serve, and the workers are told of each other.
    pub open spec fn welcomed(
        self,
        worker_id: WorkerId,
        capabilities: WorkerCapabilities,
        wg_config: Option<WorkerWgConfig>,
        tunnel_config: Option<WorkerTunnelConfig>,
        after: Orchestrator,
        out: ClusterView,
        out_after: ClusterView,
    ) -> bool {
        exists|mid: Orchestrator|
            {
                let w = worker_id.id();
                let list = assignable(self.namespaces.seq(), w);
                &&& #[trigger] self.joined_by(worker_id, capabilities, wg_config, tunnel_config, mid)
                &&& mid.only_links_differ(after)
                &&& after.links() == mid.links().assigned_to_each(list, w, mid.first_pool(w))
                &&& out_after == after.registry_out(mid.assignments_to(list, worker_id, out))
            }
    }

    /// Takes a worker in.
    pub fn welcome(
        &mut self,
        worker_id: WorkerId,
        capabilities: WorkerCapabilities,
        wg_config: Option<WorkerWgConfig>,
        tunnel_config: Option<WorkerTunnelConfig>,
        out: &mut OrchestratorOutput,
    )
        ensures
            old(self).welcomed(
                worker_id,
                capabilities,
                wg_config,
                tunnel_config,
                *final(self),
                old(out)@,
                final(out)@,
            ),
    {
        let key: WorkerId = worker_id.clone();
        self.workers.insert(
            key,
            WorkerState {
                capabilities,
                namespaces: SortedMap::new(),
                wg_config,
                tunnel_config,
                conditions: SortedMap::new(),
                transfer_listen_port: None,
                pressure_bands: PressureBands::default(),
            },
        );
        let ghost mid = *self;
        assert(old(self).joined_by(worker_id, capabilities, wg_config, tunnel_config, mid));
        let list: Vec<NamespaceId> = self.assignable_to(&worker_id);
        self.assign_to_each(&list, &worker_id, out);
        self.push_worker_registry(out);
    }

    fn assignable_to(&self, worker_id: &WorkerId) -> (r: Vec<NamespaceId>)
        ensures
            r@ == assignable(self.namespaces.seq(), worker_id.id()),
    {
        let n: usize = self.namespaces.len();
        let ghost s = self.namespaces.seq();
        let ghost w = worker_id.id();
        let mut r: Vec<NamespaceId> = Vec::new();
        let mut i: usize = 0;
        assert(s.take(0) =~= Seq::<(NamespaceId, NamespaceStateMachine)>::empty());
        while i < n
            invariant
                n == s.len(),
                s == self.namespaces.seq(),
                w == worker_id.id(),
                i <= n,
                r@ == assignable(s.take(i as int), w),
            decreases n - i,
        {
            assert(s.take(i + 1).drop_last() =~= s.take(i as int));
            assert(s.take(i + 1).last() == s[i as int]);
            let ns: &NamespaceStateMachine = self.namespaces.value_at(i);
            if ns.status != NamespaceStatus::Destroying && !ns.workers.contains_key(worker_id) {
                r.push(self.namespaces.key_at(i).clone());
            }
            i = i + 1;
        }
        assert(s.take(i as int) =~= s);
        r
    }

    /// What the departure of a worker changes and leaves to do.
    pub open spec fn departed(
        self,
        worker_id: WorkerId,
        after: Orchestrator,
        next: Seq<Task>,
    ) -> bool {
        let w = worker_id.id();
        &&& after == Orchestrator {
            workers: after.workers,
            lease_table: after.lease_table,
            ..self
        }
        &&& after.workers@ == self.workers@.remove(w)
        &&& after.lease_table@ == leases_off(self.lease_table@, w)
        &&& next == if self.workers@.contains_key(w) {
            loss_routed(self.workers@[w].namespaces.seq(), worker_id).push(Task::PushRegistry)
        } else {
            seq![Task::PushRegistry]
        }
    }

    /// Takes a worker off. Its leases go, each of its namespaces learns of the loss, and then the
    /// remaining workers are told of each other.
    pub fn handle_worker_disconnected(&mut self, worker_id: &WorkerId) -> (r: Vec<Task>)
        ensures
            old(self).departed(*worker_id, *final(self), r@),
    {
        self.lease_table.release_worker_leases(worker_id);
        let mut r: Vec<Task> = Vec::new();
        match self.workers.remove(worker_id) {
            Some(ws) => {
                let n: usize = ws.namespaces.len();
                let ghost all = loss_routed(ws.namespaces.seq(), *worker_id);
                let mut i: usize = 0;
                while i < n
                    invariant
                        n == ws.namespaces.seq().len(),
                        i <= n,
                        all == loss_routed(ws.namespaces.seq(), *worker_id),
                        r@ == all.take(i as int),
                    decreases n - i,
                {
                    r.push(
                        Task::Route {
                            namespace_id: ws.namespaces.key_at(i).clone(),
                            input: NamespaceInput::WorkerLost { worker_id: worker_id.clone() },
                        },
                    );
                    assert(r@ =~= all.take(i + 1));
                    i = i + 1;
                }
                assert(all.take(i as int) =~= all);
            },
            None => {},
        }
        r.push(Task::PushRegistry);
        proof {
            if !old(self).workers@.contains_key(worker_id.id()) {
                assert(r@ =~= seq![Task::PushRegistry]);
            }
        }
        r
    }

    /// Takes a worker in. One that is connected already is taken off first.
    pub fn handle_worker_connected(
        &mut self,
        worker_id: WorkerId,
        capabilities: WorkerCapabilities,
        wg_config: Option<WorkerWgConfig>,
        tunnel_config: Option<WorkerTunnelConfig>,
        out: &mut OrchestratorOutput,
    ) -> (r: Vec<Task>)
        ensures
            old(self).workers@.contains_key(worker_id.id()) ==> {
                &&& final(out)@ == old(out)@
                &&& r@.len() > 0
                &&& old(self).departed(worker_id, *final(self), r@.drop_last())
                &&& r@.last() == (Task::Welcome {
                    worker_id,
                    capabilities,
                    wg_config,
                    tunnel_config,
                })
            },
            !old(self).workers@.contains_key(worker_id.id()) ==> {
                &&& r@.len() == 0
                &&& old(self).welcomed(
                    worker_id,
                    capabilities,
                    wg_config,
                    tunnel_config,
                    *final(self),
                    old(out)@,
                    final(out)@,
                )
            },
    {
        if self.workers.contains_key(&worker_id) {
            let mut r: Vec<Task> = self.handle_worker_disconnected(&worker_id);
            let ghost before = r@;
            r.push(Task::Welcome { worker_id, capabilities, wg_config, tunnel_config });
            assert(r@.drop_last() =~= before);
            r
        } else {
            self.welcome(worker_id, capabilities, wg_config, tunnel_config, out);
            Vec::new()
        }
    }

    /// Takes in how hard a worker is pressed. Workloads that wait may now find a place.
    pub fn handle_worker_pressure_update(
        &mut self,
        worker_id: &WorkerId,
        bands: PressureBands,
    ) -> (r: Vec<Task>)
        ensures
            old(self).with_bands(worker_id.id(), bands, *final(self)),
            r@ == waiting(final(self).namespaces.seq()),
    {
        self.recompute_worker_pressure(worker_id, bands);
        self.schedule_waiting_pods()
    }

    /// Takes in the sizes of a worker's stores. Its pressure is determined anew, then workloads that
    /// wait may find a place.
    pub fn handle_worker_pool_capacity_update(
        &mut self,
        worker_id: &WorkerId,
        pools: &Vec<PoolInfo>,
    ) -> (r: Vec<Task>)
        ensures
            *final(self) == (Orchestrator { workers: final(self).workers, ..*old(self) }),
            final(self).workers@.dom() == old(self).workers@.dom(),
            forall|w: Seq<char>|
                #![trigger final(self).workers@[w]]
                old(self).workers@.contains_key(w) ==> if w == worker_id.id() {
                    let caps = old(self).workers@[w].capabilities;
                    let now = final(self).workers@[w].capabilities;
                    &&& final(self).workers@[w] == (WorkerState {
                        capabilities: now,
                        ..old(self).workers@[w]
                    })
                    &&& now == (WorkerCapabilities { pools: now.pools, ..caps })
                    &&& now.pools@ == with_pools(caps.pools@, pools@)
                } else {
                    final(self).workers@[w] == old(self).workers@[w]
                },
            r@ == seq![Task::Recompute { worker_id: *worker_id }, Task::ScheduleWaiting],
    {
        let change = |ws: WorkerState| -> (r: (WorkerState, ()))
            ensures
                r.0 == (WorkerState { capabilities: r.0.capabilities, ..ws }),
                r.0.capabilities == (WorkerCapabilities {
                    pools: r.0.capabilities.pools,
                    ..ws.capabilities
                }),
                r.0.capabilities.pools@ == with_pools(ws.capabilities.pools@, pools@),
            {
                let mut ws: WorkerState = ws;
                let mut list: Vec<PoolInfo> = Vec::new();
                std::mem::swap(&mut list, &mut ws.capabilities.pools);
                update_pools(&mut list, pools);
                ws.capabilities.pools = list;
                (ws, ())
            };
        let ghost before = self.workers@;
        let _ = self.workers.modify(worker_id, change);
        assert(self.workers@.dom() =~= before.dom());
        let mut r: Vec<Task> = Vec::new();
        r.push(Task::Recompute { worker_id: worker_id.clone() });
        r.push(Task::ScheduleWaiting);
        assert(r@ =~= seq![Task::Recompute { worker_id: *worker_id }, Task::ScheduleWaiting]);
        r
    }

    /// Takes in a condition of a worker. When one is cleared, workloads that wait may find a place.
    pub fn handle_worker_condition_update(
        &mut self,
        worker_id: &WorkerId,
        key: String,
        active: bool,
        message: String,
    ) -> (r: Vec<Task>)
        ensures
            *final(self) == (Orchestrator { workers: final(self).workers, ..*old(self) }),
            final(self).workers@.dom() == old(self).workers@.dom(),
            forall|w: Seq<char>|
                #![trigger final(self).workers@[w]]
                old(self).workers@.contains_key(w) ==> if w == worker_id.id() {
                    &&& final(self).workers@[w] == (WorkerState {
                        conditions: final(self).workers@[w].conditions,
                        ..old(self).workers@[w]
                    })
                    &&& final(self).workers@[w].conditions@ == if active {
                        old(self).workers@[w].conditions@.insert(
                            key@,
                            WorkerCondition { active: true, message },
                        )
                    } else {
                        old(self).workers@[w].conditions@.remove(key@)
                    }
                } else {
                    final(self).workers@[w] == old(self).workers@[w]
                },
            r@ == (if active {
                seq![]
            } else {
                waiting(old(self).namespaces.seq())
            }),
    {
        let ghost k = key@;
        let change = |ws: WorkerState| -> (r: (WorkerState, ()))
            ensures
                r.0 == (WorkerState { conditions: r.0.conditions, ..ws }),
                r.0.conditions@ == (if active {
                    ws.conditions@.insert(k, WorkerCondition { active: true, message })
                } else {
                    ws.conditions@.remove(k)
                }),
            {
                let mut ws: WorkerState = ws;
                if active {
                    ws.conditions.insert(key, WorkerCondition { active: true, message });
                } else {
                    let _ = ws.conditions.remove(&key);
                }
                (ws, ())
            };
        let ghost before = self.workers@;
        let _ = self.workers.modify(worker_id, change);
        assert(self.workers@.dom() =~= before.dom());
        if active {
            Vec::new()
        } else {
            self.schedule_waiting_pods()
        }
    }

    /// What the end of a namespace changes.
    pub open spec fn without_namespace(self, namespace: Seq<char>, after: Orchestrator) -> bool {
        &&& after == Orchestrator {
            namespaces: after.namespaces,
            workers: after.workers,
            active_segment_ids: after.active_segment_ids,
            ..self
        }
        &&& after.namespaces@ == self.namespaces@.remove(namespace)
        &&& after.active_segment_ids@ == if self.namespaces@.contains_key(namespace) {
            self.active_segment_ids@.remove(self.namespaces@[namespace].segment_id)
        } else {
            self.active_segment_ids@
        }
        &&& same_keys(after.workers.seq(), self.workers.seq())
        &&& after.workers@.dom() == self.workers@.dom()
        &&& forall|w: Seq<char>|
            #![trigger after.workers@[w]]
            self.workers@.contains_key(w) ==> after.workers@[w] == (WorkerState {
                namespaces: after.workers@[w].namespaces,
                ..self.workers@[w]
            }) && after.workers@[w].namespaces@ == self.workers@[w].namespaces@.remove(namespace)
    }

    /// Forgets a namespace that is gone. Its segment is free again, and the workers are told of each
    /// other.
    pub fn remove_namespace(&mut self, namespace_id: &NamespaceId, out: &mut OrchestratorOutput)
        ensures
            old(self).without_namespace(namespace_id.id(), *final(self)),
            final(out)@ == final(self).registry_out(old(out)@),
    {
        let ghost before = *self;
        let ghost n = namespace_id.id();
        match self.namespaces.remove(namespace_id) {
            Some(ns) => {
                self.free_segment_id(ns.segment_id);
            },
            None => {},
        }
        let forget = |ws: WorkerState| -> (r: WorkerState)
            ensures
                r == (WorkerState { namespaces: r.namespaces, ..ws }),
                r.namespaces@ == ws.namespaces@.remove(namespace_id.id()),
            {
                let mut ws: WorkerState = ws;
                let _ = ws.namespaces.remove(namespace_id);
                ws
            };
        self.workers.replace_values(forget);
        proof {
            assert forall|w: Seq<char>|
                #![trigger self.workers@[w]]
                before.workers@.contains_key(w) implies self.workers@[w] == (WorkerState {
                namespaces: self.workers@[w].namespaces,
                ..before.workers@[w]
            }) && self.workers@[w].namespaces@ == before.workers@[w].namespaces@.remove(n) by {
                assert(self.workers@.dom().contains(w));
                assert(self.workers@.contains_key(w));
            }
        }
        self.push_worker_registry(out);
    }
}

/// The end of a namespace keeps the links sound.
pub proof fn lemma_removal_keeps_links_sound(
    before: Orchestrator,
    namespace: Seq<char>,
    after: Orchestrator,
)
    requires
        before.without_namespace(namespace, after),
        before.links().sound(),
    ensures
        after.links().sound(),
{
    let (a, b) = (before.links(), after.links());
    assert forall|n: Seq<char>, w: Seq<char>|
        #![trigger b.members[n].contains_key(w)]
        b.members.contains_key(n) && b.members[n].contains_key(w) && b.homes.contains_key(
            w,
        ) implies b.homes[w].contains_key(n) by {
        assert(a.members[n].contains_key(w));
        assert(before.workers@.dom().contains(w));
        assert(after.workers@[w].namespaces@.contains_key(n));
    }
    assert forall|n: Seq<char>, w: Seq<char>|
        #![trigger b.homes[w].contains_key(n)]
        b.homes.contains_key(w) && b.homes[w].contains_key(n) implies b.members.contains_key(n) by {
        assert(before.workers@.dom().contains(w));
        assert(after.workers@[w].namespaces@.contains_key(n));
        assert(a.homes[w].contains_key(n));
    }
}

/// The end of a namespace keeps the links sound and the segments apart.
pub proof fn law_removal_keeps_cluster_sound(
    before: Orchestrator,
    namespace: Seq<char>,
    after: Orchestrator,
)
    requires
        before.without_namespace(namespace, after),
        before.links().sound(),
        before.segments_match(),
    ensures
        after.links().sound(),
        after.segments_match(),
{
    lemma_removal_keeps_links_sound(before, namespace, after);
    assert forall|n: Seq<char>| #[trigger]
        after.namespaces@.contains_key(n) implies after.active_segment_ids@.contains_key(
        after.namespaces@[n].segment_id,
    ) by {
        assert(before.namespaces@.contains_key(n));
        if before.namespaces@.contains_key(namespace) {
            assert(before.namespaces@[n].segment_id != before.namespaces@[namespace].segment_id);
        }
    }
    assert forall|n: Seq<char>, m: Seq<char>|
        #![trigger after.namespaces@[n], after.namespaces@[m]]
        after.namespaces@.contains_key(n) && after.namespaces@.contains_key(m) && n
            != m implies after.namespaces@[n].segment_id != after.namespaces@[m].segment_id by {
        assert(before.namespaces@[n].segment_id != before.namespaces@[m].segment_id);
    }
    assert forall|id: u16| #[trigger]
        after.active_segment_ids@.contains_key(id) implies exists|n: Seq<char>| #[trigger]
        after.namespaces@.contains_key(n) && after.namespaces@[n].segment_id == id by {
        assert(before.active_segment_ids@.contains_key(id));
        let n = choose|n: Seq<char>| #[trigger]
            before.namespaces@.contains_key(n) && before.namespaces@[n].segment_id == id;
        assert(n != namespace);
        assert(after.namespaces@.contains_key(n));
    }
}

proof fn lemma_assigned_to_each_sound(
    links: Links,
    namespaces: Seq<NamespaceId>,
    worker: Seq<char>,
    pool_id: Option<PoolId>,
)
    requires
        links.sound(),
        forall|i: int|
            0 <= i < namespaces.len() ==> links.members.contains_key((#[trigger] namespaces[i]).id()),
    ensures
        links.assigned_to_each(namespaces, worker, pool_id).sound(),
        links.assigned_to_each(namespaces, worker, pool_id).members.dom() == links.members.dom(),
    decreases namespaces.len(),
{
    if namespaces.len() > 0 {
        let front = namespaces.drop_last();
        assert forall|i: int| 0 <= i < front.len() implies links.members.contains_key(
            (#[trigger] front[i]).id(),
        ) by {
            assert(links.members.contains_key(namespaces[i].id()));
        }
        lemma_assigned_to_each_sound(links, front, worker, pool_id);
        let before = links.assigned_to_each(front, worker, pool_id);
        let n = namespaces[namespaces.len() - 1].id();
        assert(links.members.dom().contains(n));
        assert(before.members.dom().contains(n));
        law_assignment_keeps_links_sound(before, n, worker, pool_id);
        assert(before.assigned(n, worker, pool_id).members.dom() =~= links.members.dom());
    }
}

proof fn lemma_assignable(namespaces: Seq<(NamespaceId, NamespaceStateMachine)>, worker: Seq<char>)
    ensures
        forall|i: int|
            0 <= i < assignable(namespaces, worker).len() ==> exists|j: int|
                0 <= j < namespaces.len() && (#[trigger] namespaces[j]).0 == (
                #[trigger] assignable(namespaces, worker)[i]),
    decreases namespaces.len(),
{
    if namespaces.len() > 0 {
        let front = namespaces.drop_last();
        lemma_assignable(front, worker);
        let rest = assignable(front, worker);
        let all = assignable(namespaces, worker);
        assert forall|i: int| 0 <= i < all.len() implies exists|j: int|
            0 <= j < namespaces.len() && (#[trigger] namespaces[j]).0 == (#[trigger] all[i]) by {
            if i < rest.len() {
                assert(all[i] == rest[i]);
                let j = choose|j: int| 0 <= j < front.len() && (#[trigger] front[j]).0 == rest[i];
                assert(namespaces[j].0 == all[i]);
            } else {
                assert(namespaces[namespaces.len() - 1].0 == all[i]);
            }
        }
    }
}

/// The arrival of a worker that no namespace lists keeps the links sound.
pub proof fn law_arrival_keeps_links_sound(
    before: Orchestrator,
    worker_id: WorkerId,
    capabilities: WorkerCapabilities,
    wg_config: Option<WorkerWgConfig>,
    tunnel_config: Option<WorkerTunnelConfig>,
    after: Orchestrator,
    out: ClusterView,
    out_after: ClusterView,
)
    requires
        before.welcomed(
            worker_id,
            capabilities,
            wg_config,
            tunnel_config,
            after,
            out,
            out_after,
        ),
        before.links().sound(),
        increasing(before.namespaces.seq()),
        forall|n: Seq<char>|
            #![trigger before.namespaces@[n]]
            before.namespaces@.contains_key(n) ==> !before.namespaces@[n].workers@.contains_key(
                worker_id.id(),
            ),
    ensures
        after.links().sound(),
{
    let w = worker_id.id();
    let s = before.namespaces.seq();
    let list = assignable(s, w);
    let mid = choose|mid: Orchestrator|
        {
            &&& #[trigger] before.joined_by(worker_id, capabilities, wg_config, tunnel_config, mid)
            &&& mid.only_links_differ(after)
            &&& after.links() == mid.links().assigned_to_each(list, w, mid.first_pool(w))
            &&& out_after == after.registry_out(mid.assignments_to(list, worker_id, out))
        };
    let (a, b) = (before.links(), mid.links());
    assert forall|n: Seq<char>, x: Seq<char>|
        #![trigger b.members[n].contains_key(x)]
        b.members.contains_key(n) && b.members[n].contains_key(x) && b.homes.contains_key(
            x,
        ) implies b.homes[x].contains_key(n) by {
        assert(before.namespaces@[n].workers@.contains_key(x));
        assert(a.members[n].contains_key(x));
    }
    assert forall|n: Seq<char>, x: Seq<char>|
        #![trigger b.homes[x].contains_key(n)]
        b.homes.contains_key(x) && b.homes[x].contains_key(n) implies b.members.contains_key(n) by {
        if x != w {
            assert(a.homes[x].contains_key(n));
        }
    }
    lemma_assignable(s, w);
    assert forall|i: int| 0 <= i < list.len() implies b.members.contains_key(
        (#[trigger] list[i]).id(),
    ) by {
        let j = choose|j: int| 0 <= j < s.len() && (#[trigger] s[j]).0 == list[i];
        lemma_position_unique(s, j);
        assert(before.namespaces@.contains_key(s[j].0.id()));
    }
    lemma_assigned_to_each_sound(b, list, w, mid.first_pool(w));
}

/// The departure of a worker keeps the links sound.
pub proof fn law_departure_keeps_links_sound(
    before: Orchestrator,
    worker_id: WorkerId,
    after: Orchestrator,
    next: Seq<Task>,
)
    requires
        before.departed(worker_id, after, next),
        before.links().sound(),
    ensures
        after.links().sound(),
{
    let (a, b) = (before.links(), after.links());
    assert forall|n: Seq<char>, w: Seq<char>|
        #![trigger b.members[n].contains_key(w)]
        b.members.contains_key(n) && b.members[n].contains_key(w) && b.homes.contains_key(
            w,
        ) implies b.homes[w].contains_key(n) by {
        assert(a.members[n].contains_key(w));
    }
    assert forall|n: Seq<char>, w: Seq<char>|
        #![trigger b.homes[w].contains_key(n)]
        b.homes.contains_key(w) && b.homes[w].contains_key(n) implies b.members.contains_key(n) by {
        assert(a.homes[w].contains_key(n));
    }
}

} // verus!
