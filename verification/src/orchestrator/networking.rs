//! Which worker serves which namespace, and how workers and clients reach each other.
use std::sync::Arc;

use vstd::prelude::*;

use crate::broadcast::{targets, to_each};
use crate::ids::{ClientId, NamespaceId, PoolId, WorkerId};
use crate::namespace::step::NamespaceInput;
use crate::namespace::NamespaceStateMachine;
use crate::orchestrator::{
    ClusterView, Orchestrator, OrchestratorOutput, Task, WorkerState, WorkerWgConfig,
};
use crate::output::ClientEvent;
use crate::sorted_map::{same_keys, Key, SortedMap};
use crate::text::{decimal, push_decimal};
use crate::types::{
    CommandView, FabricStatus, NamespaceWorkerState, PeerView, PressureBand, WorkerCommand,
    WorkerPeerInfo,
};

verus! {

/// `host:port`.
pub open spec fn host_port(host: Seq<char>, port: u16) -> Seq<char> {
    host + ":"@ + decimal(port as nat)
}

/// `host:port`.
pub fn host_port_text(host: &str, port: u16) -> (r: String)
    ensures
        r@ == host_port(host@, port),
{
    let mut r: String = host.to_owned();
    r.append(":");
    push_decimal(&mut r, port as u64);
    assert(r@ =~= host_port(host@, port));
    r
}

/// Who serves whom: the workers that each namespace lists, and the namespaces that each worker
/// lists.
#[verifier::ext_equal]
pub struct Links {
    pub members: Map<Seq<char>, Map<Seq<char>, NamespaceWorkerState>>,
    pub homes: Map<Seq<char>, Map<Seq<char>, ()>>,
}

impl Links {
    /// With a worker assigned to a namespace. `pool_id` is the worker's first store.
    pub open spec fn assigned(
        self,
        namespace: Seq<char>,
        worker: Seq<char>,
        pool_id: Option<PoolId>,
    ) -> Links {
        Links {
            members: if self.members.contains_key(namespace) {
                self.members.insert(
                    namespace,
                    self.members[namespace].insert(worker, fresh_member(pool_id)),
                )
            } else {
                self.members
            },
            homes: if self.homes.contains_key(worker) {
                self.homes.insert(worker, self.homes[worker].insert(namespace, ()))
            } else {
                self.homes
            },
        }
    }

    /// With a worker assigned to each of several namespaces.
    pub open spec fn assigned_to_each(
        self,
        namespaces: Seq<NamespaceId>,
        worker: Seq<char>,
        pool_id: Option<PoolId>,
    ) -> Links
        decreases namespaces.len(),
    {
        if namespaces.len() == 0 {
            self
        } else {
            self.assigned_to_each(namespaces.drop_last(), worker, pool_id).assigned(
                namespaces.last().id(),
                worker,
                pool_id,
            )
        }
    }

    /// A connected worker that a namespace lists lists the namespace too, and a worker lists only
    /// namespaces that are there.
    pub open spec fn sound(self) -> bool {
        &&& forall|n: Seq<char>, w: Seq<char>|
            #![trigger self.members[n].contains_key(w)]
            self.members.contains_key(n) && self.members[n].contains_key(w)
                && self.homes.contains_key(w) ==> self.homes[w].contains_key(n)
        &&& forall|n: Seq<char>, w: Seq<char>|
            #![trigger self.homes[w].contains_key(n)]
            self.homes.contains_key(w) && self.homes[w].contains_key(n)
                ==> self.members.contains_key(n)
    }
}

/// A worker that was just assigned to a namespace.
pub open spec fn fresh_member(pool_id: Option<PoolId>) -> NamespaceWorkerState {
    NamespaceWorkerState {
        fabric_status: FabricStatus::Creating,
        primary_pool_id: pool_id,
        pressure_band: PressureBand::Normal,
    }
}

/// Assigning a worker that is connected to a namespace that is there keeps the links sound.
pub proof fn law_assignment_keeps_links_sound(
    links: Links,
    namespace: Seq<char>,
    worker: Seq<char>,
    pool_id: Option<PoolId>,
)
    requires
        links.sound(),
        links.members.contains_key(namespace),
    ensures
        links.assigned(namespace, worker, pool_id).sound(),
{
    let after = links.assigned(namespace, worker, pool_id);
    assert forall|n: Seq<char>, w: Seq<char>|
        #![trigger after.members[n].contains_key(w)]
        after.members.contains_key(n) && after.members[n].contains_key(w)
            && after.homes.contains_key(w) implies after.homes[w].contains_key(n) by {
        if n == namespace && w == worker {
        } else {
            assert(links.members[n].contains_key(w));
        }
    }
    assert forall|n: Seq<char>, w: Seq<char>|
        #![trigger after.homes[w].contains_key(n)]
        after.homes.contains_key(w) && after.homes[w].contains_key(n) implies after.members.contains_key(n) by {
        if n == namespace && w == worker {
        } else {
            assert(links.homes[w].contains_key(n));
        }
    }
}

/// The segments of the namespaces that a worker lists.
pub open spec fn segments_of(
    homes: Seq<(NamespaceId, ())>,
    namespaces: Map<Seq<char>, NamespaceStateMachine>,
) -> Seq<u16>
    decreases homes.len(),
{
    if homes.len() == 0 {
        seq![]
    } else {
        let rest = segments_of(homes.drop_last(), namespaces);
        let n = homes.last().0.id();
        if namespaces.contains_key(n) {
            rest.push(namespaces[n].segment_id)
        } else {
            rest
        }
    }
}

impl Orchestrator {
    pub open spec fn links(self) -> Links {
        Links {
            members: self.namespaces@.map_values(|n: NamespaceStateMachine| n.workers@),
            homes: self.workers@.map_values(|w: WorkerState| w.namespaces@),
        }
    }

    /// `after` is `self` but for who serves whom.
    pub open spec fn only_links_differ(self, after: Orchestrator) -> bool {
        &&& after == Orchestrator {
            namespaces: after.namespaces,
            workers: after.workers,
            ..self
        }
        &&& same_keys(after.namespaces.seq(), self.namespaces.seq())
        &&& after.namespaces@.dom() == self.namespaces@.dom()
        &&& same_keys(after.workers.seq(), self.workers.seq())
        &&& after.workers@.dom() == self.workers@.dom()
        &&& forall|n: Seq<char>| #[trigger]
            self.namespaces@.contains_key(n) ==> after.namespaces@[n] == (NamespaceStateMachine {
                workers: after.namespaces@[n].workers,
                ..self.namespaces@[n]
            })
        &&& forall|w: Seq<char>| #[trigger]
            self.workers@.contains_key(w) ==> after.workers@[w] == (WorkerState {
                namespaces: after.workers@[w].namespaces,
                ..self.workers@[w]
            })
    }

    /// A worker's first store.
    pub open spec fn first_pool(self, worker: Seq<char>) -> Option<PoolId> {
        if self.workers@.contains_key(worker) && self.workers@[worker].capabilities.pools@.len()
            > 0 {
            Some(self.workers@[worker].capabilities.pools@[0].pool_id)
        } else {
            None
        }
    }

    /// What tells a worker of its assignment.
    pub open spec fn assignment_out(
        self,
        namespace_id: NamespaceId,
        worker_id: WorkerId,
        out: ClusterView,
    ) -> ClusterView {
        if self.namespaces@.contains_key(namespace_id.id()) {
            out.with_command(
                worker_id,
                CommandView::CreateNamespace {
                    namespace_id,
                    network: self.namespaces@[namespace_id.id()].spec.network,
                },
            )
        } else {
            out
        }
    }

    /// With every worker of a list assigned to a namespace.
    pub open spec fn with_all_assigned(
        self,
        namespace: Seq<char>,
        workers: Seq<(WorkerId, WorkerState)>,
    ) -> Links
        decreases workers.len(),
    {
        if workers.len() == 0 {
            self.links()
        } else {
            let w = workers.last().0.id();
            self.with_all_assigned(namespace, workers.drop_last()).assigned(
                namespace,
                w,
                self.first_pool(w),
            )
        }
    }

    /// What tells every worker of a list of its assignment.
    pub open spec fn assignments_of(
        self,
        namespace_id: NamespaceId,
        workers: Seq<(WorkerId, WorkerState)>,
        out: ClusterView,
    ) -> ClusterView
        decreases workers.len(),
    {
        if workers.len() == 0 {
            out
        } else {
            self.assignment_out(
                namespace_id,
                workers.last().0,
                self.assignments_of(namespace_id, workers.drop_last(), out),
            )
        }
    }

    /// What tells a worker of its assignment to each of several namespaces.
    pub open spec fn assignments_to(
        self,
        namespaces: Seq<NamespaceId>,
        worker_id: WorkerId,
        out: ClusterView,
    ) -> ClusterView
        decreases namespaces.len(),
    {
        if namespaces.len() == 0 {
            out
        } else {
            self.assignment_out(
                namespaces.last(),
                worker_id,
                self.assignments_to(namespaces.drop_last(), worker_id, out),
            )
        }
    }

    /// Assigns every worker to a namespace.
    pub fn assign_all_workers(&mut self, namespace_id: &NamespaceId, out: &mut OrchestratorOutput)
        ensures
            old(self).only_links_differ(*final(self)),
            final(self).links() == old(self).with_all_assigned(
                namespace_id.id(),
                old(self).workers.seq(),
            ),
            final(out)@ == old(self).assignments_of(
                *namespace_id,
                old(self).workers.seq(),
                old(out)@,
            ),
    {
        let ghost before = *self;
        let ghost s = self.workers.seq();
        let ghost n = namespace_id.id();
        let count: usize = self.workers.len();
        let mut i: usize = 0;
        assert(s.take(0) =~= Seq::<(WorkerId, WorkerState)>::empty());
        while i < count
            invariant
                before == *old(self),
                count == s.len(),
                s == before.workers.seq(),
                n == namespace_id.id(),
                i <= count,
                before.only_links_differ(*self),
                self.links() == before.with_all_assigned(n, s.take(i as int)),
                out@ == before.assignments_of(*namespace_id, s.take(i as int), old(out)@),
            decreases count - i,
        {
            proof {
                assert(s.take(i + 1).drop_last() =~= s.take(i as int));
                assert(s.take(i + 1).last() == s[i as int]);
                assert(self.workers.seq()[i as int].0 == s[i as int].0);
            }
            let worker_id: WorkerId = self.workers.key_at(i).clone();
            let ghost mid = *self;
            self.assign_worker_to_namespace(namespace_id, &worker_id, out);
            proof {
                lemma_only_links_differ(before, mid, *self);
            }
            i = i + 1;
        }
        assert(s.take(i as int) =~= s);
    }

    /// Assigns a worker to each of several namespaces.
    pub fn assign_to_each(
        &mut self,
        namespaces: &Vec<NamespaceId>,
        worker_id: &WorkerId,
        out: &mut OrchestratorOutput,
    )
        ensures
            old(self).only_links_differ(*final(self)),
            final(self).links() == old(self).links().assigned_to_each(
                namespaces@,
                worker_id.id(),
                old(self).first_pool(worker_id.id()),
            ),
            final(out)@ == old(self).assignments_to(namespaces@, *worker_id, old(out)@),
    {
        let ghost before = *self;
        let mut i: usize = 0;
        assert(namespaces@.take(0) =~= Seq::<NamespaceId>::empty());
        while i < namespaces.len()
            invariant
                before == *old(self),
                i <= namespaces@.len(),
                before.only_links_differ(*self),
                self.links() == before.links().assigned_to_each(
                    namespaces@.take(i as int),
                    worker_id.id(),
                    before.first_pool(worker_id.id()),
                ),
                out@ == before.assignments_to(
                    namespaces@.take(i as int),
                    *worker_id,
                    old(out)@,
                ),
            decreases namespaces@.len() - i,
        {
            proof {
                assert(namespaces@.take(i + 1).drop_last() =~= namespaces@.take(i as int));
                assert(namespaces@.take(i + 1).last() == namespaces@[i as int]);
            }
            let ghost mid = *self;
            self.assign_worker_to_namespace(&namespaces[i], worker_id, out);
            proof {
                lemma_only_links_differ(before, mid, *self);
            }
            i = i + 1;
        }
        assert(namespaces@.take(i as int) =~= namespaces@);
    }

    /// Assigns a worker to a namespace. The workers are not told of each other here.
    pub fn assign_worker_to_namespace(
        &mut self,
        namespace_id: &NamespaceId,
        worker_id: &WorkerId,
        out: &mut OrchestratorOutput,
    )
        ensures
            old(self).only_links_differ(*final(self)),
            final(self).links() == old(self).links().assigned(
                namespace_id.id(),
                worker_id.id(),
                old(self).first_pool(worker_id.id()),
            ),
            final(out)@ == old(self).assignment_out(*namespace_id, *worker_id, old(out)@),
    {
        let ghost before = *self;
        let ghost n = namespace_id.id();
        let ghost w = worker_id.id();
        let pool_id: Option<PoolId> = match self.workers.get(worker_id) {
            Some(ws) => if ws.capabilities.pools.len() > 0 {
                Some(ws.capabilities.pools[0].pool_id.clone())
            } else {
                None
            },
            None => None,
        };
        let ghost pool = pool_id;
        let member = NamespaceWorkerState {
            fabric_status: FabricStatus::Creating,
            primary_pool_id: pool_id,
            pressure_band: PressureBand::Normal,
        };
        let key: WorkerId = worker_id.clone();
        let join = |ns: NamespaceStateMachine| -> (r: (NamespaceStateMachine, ()))
            ensures
                r.0 == (NamespaceStateMachine { workers: r.0.workers, ..ns }),
                r.0.workers@ == ns.workers@.insert(w, member),
            {
                let mut ns: NamespaceStateMachine = ns;
                ns.workers.insert(key, member);
                (ns, ())
            };
        let _ = self.namespaces.modify(namespace_id, join);
        let home: NamespaceId = namespace_id.clone();
        let settle = |ws: WorkerState| -> (r: (WorkerState, ()))
            ensures
                r.0 == (WorkerState { namespaces: r.0.namespaces, ..ws }),
                r.0.namespaces@ == ws.namespaces@.insert(n, ()),
            {
                let mut ws: WorkerState = ws;
                ws.namespaces.insert(home, ());
                (ws, ())
            };
        let _ = self.workers.modify(worker_id, settle);
        match self.namespaces.get(namespace_id) {
            Some(ns) => {
                let network = ns.spec.network;
                out.command(
                    worker_id.clone(),
                    WorkerCommand::CreateNamespace { namespace_id: namespace_id.clone(), network },
                );
            },
            None => {},
        }
        proof {
            assert(pool == before.first_pool(w));
            assert(self.links().members =~= before.links().assigned(n, w, pool).members);
            assert(self.links().homes =~= before.links().assigned(n, w, pool).homes);
            assert(self.namespaces@.dom() =~= before.namespaces@.dom());
            assert(self.workers@.dom() =~= before.workers@.dom());
        }
    }

    /// A worker as its peers see it: only one with a tunnel and a public endpoint can be reached.
    pub open spec fn peer_of(self, worker_id: WorkerId, ws: WorkerState) -> Option<PeerView> {
        match ws.tunnel_config {
            Some(tc) => if ws.capabilities.public_endpoint@.len() == 0 {
                None
            } else {
                Some(
                    PeerView {
                        worker_id,
                        endpoint: host_port(ws.capabilities.public_endpoint@, tc.listen_port),
                        public_key: tc.public_key,
                        segments: segments_of(ws.namespaces.seq(), self.namespaces@),
                    },
                )
            },
            None => None,
        }
    }

    /// The workers that can be reached.
    pub open spec fn registry(self, workers: Seq<(WorkerId, WorkerState)>) -> Seq<PeerView>
        decreases workers.len(),
    {
        if workers.len() == 0 {
            seq![]
        } else {
            let rest = self.registry(workers.drop_last());
            match self.peer_of(workers.last().0, workers.last().1) {
                Some(p) => rest.push(p),
                None => rest,
            }
        }
    }

    fn segments_on(&self, homes: &SortedMap<NamespaceId, ()>) -> (r: Vec<u16>)
        ensures
            r@ == segments_of(homes.seq(), self.namespaces@),
    {
        let n: usize = homes.len();
        let ghost s = homes.seq();
        let mut r: Vec<u16> = Vec::new();
        let mut i: usize = 0;
        assert(s.take(0) =~= Seq::<(NamespaceId, ())>::empty());
        while i < n
            invariant
                n == s.len(),
                s == homes.seq(),
                i <= n,
                r@ == segments_of(s.take(i as int), self.namespaces@),
            decreases n - i,
        {
            assert(s.take(i + 1).drop_last() =~= s.take(i as int));
            assert(s.take(i + 1).last() == s[i as int]);
            if let Some(ns) = self.namespaces.get(homes.key_at(i)) {
                r.push(ns.segment_id);
            }
            i = i + 1;
        }
        assert(s.take(i as int) =~= s);
        r
    }

    /// The workers that can be reached.
    pub fn build_worker_registry(&self) -> (r: Vec<WorkerPeerInfo>)
        ensures
            r@.map_values(|w: WorkerPeerInfo| w@) == self.registry(self.workers.seq()),
    {
        let n: usize = self.workers.len();
        let ghost s = self.workers.seq();
        let mut r: Vec<WorkerPeerInfo> = Vec::new();
        let mut i: usize = 0;
        assert(s.take(0) =~= Seq::<(WorkerId, WorkerState)>::empty());
        assert(r@.map_values(|w: WorkerPeerInfo| w@) =~= self.registry(s.take(0)));
        while i < n
            invariant
                n == s.len(),
                s == self.workers.seq(),
                i <= n,
                r@.map_values(|w: WorkerPeerInfo| w@) == self.registry(s.take(i as int)),
            decreases n - i,
        {
            assert(s.take(i + 1).drop_last() =~= s.take(i as int));
            assert(s.take(i + 1).last() == s[i as int]);
            let ghost earlier = r@.map_values(|w: WorkerPeerInfo| w@);
            let ws: &WorkerState = self.workers.value_at(i);
            if let Some(tc) = ws.tunnel_config {
                if !is_blank(ws.capabilities.public_endpoint.as_str()) {
                    let peer = WorkerPeerInfo {
                        worker_id: self.workers.key_at(i).clone(),
                        endpoint: host_port_text(
                            ws.capabilities.public_endpoint.as_str(),
                            tc.listen_port,
                        ),
                        public_key: tc.public_key,
                        segments: Arc::new(self.segments_on(&ws.namespaces)),
                    };
                    assert(Some(peer@) == self.peer_of(s[i as int].0, s[i as int].1));
                    r.push(peer);
                    assert(r@.map_values(|w: WorkerPeerInfo| w@) =~= earlier.push(peer@));
                }
            }
            i = i + 1;
        }
        assert(s.take(i as int) =~= s);
        r
    }

    /// The names of the workers, in order.
    pub open spec fn worker_ids(self) -> Seq<WorkerId> {
        self.workers.seq().map_values(|e: (WorkerId, WorkerState)| e.0)
    }

    /// What tells every worker of every worker.
    pub open spec fn registry_out(self, out: ClusterView) -> ClusterView {
        out.with_commands(
            to_each(
                self.worker_ids(),
                CommandView::WorkerRegistrySync { workers: self.registry(self.workers.seq()) },
            ),
        )
    }

    /// Tells every worker of every worker that can be reached.
    pub fn push_worker_registry(&self, out: &mut OrchestratorOutput)
        ensures
            final(out)@ == self.registry_out(old(out)@),
    {
        let command = WorkerCommand::WorkerRegistrySync { workers: self.build_worker_registry() };
        let ghost view = CommandView::WorkerRegistrySync {
            workers: self.registry(self.workers.seq()),
        };
        assert(command@ =~= view);
        let ghost all = to_each(self.worker_ids(), view);
        let n: usize = self.workers.len();
        let mut i: usize = 0;
        assert(out@ =~= old(out)@.with_commands(all.take(0)));
        while i < n
            invariant
                n == self.workers.seq().len(),
                i <= n,
                command@ == view,
                all == to_each(self.worker_ids(), view),
                out@ == old(out)@.with_commands(all.take(i as int)),
            decreases n - i,
        {
            out.command(self.workers.key_at(i).clone(), command.clone());
            assert(out@ =~= old(out)@.with_commands(all.take(i + 1)));
            i = i + 1;
        }
        assert(all.take(i as int) =~= all);
    }

    /// The worker that a client of a namespace connects to: its key and its address, or why there
    /// is none.
    pub open spec fn gateway(self, namespace: Seq<char>) -> Result<([u8; 32], Seq<char>), Seq<char>> {
        if !self.namespaces@.contains_key(namespace) {
            Err("namespace not found"@)
        } else {
            let up = targets(self.namespaces@[namespace].workers.seq(), None);
            if up.len() == 0 {
                Err("no active worker for namespace"@)
            } else if !self.workers@.contains_key(up[0].id()) {
                Err("worker not found"@)
            } else {
                let ws = self.workers@[up[0].id()];
                match ws.wg_config {
                    None => Err("worker does not have WireGuard configured"@),
                    Some(cfg) => if ws.capabilities.public_endpoint@.len() == 0 {
                        Err("worker has no public endpoint"@)
                    } else {
                        Ok(
                            (
                                cfg.public_key,
                                host_port(ws.capabilities.public_endpoint@, cfg.listen_port),
                            ),
                        )
                    },
                }
            }
        }
    }

    fn find_gateway(&self, namespace_id: &NamespaceId) -> (r: Result<
        ([u8; 32], String),
        &'static str,
    >)
        ensures
            match (r, self.gateway(namespace_id.id())) {
                (Ok(a), Ok(b)) => a.0 == b.0 && a.1@ == b.1,
                (Err(a), Err(b)) => a@ == b,
                _ => false,
            },
    {
        let ns: &NamespaceStateMachine = match self.namespaces.get(namespace_id) {
            Some(ns) => ns,
            None => {
                return Err("namespace not found");
            },
        };
        let up: Vec<WorkerId> = ns.active_worker_ids();
        if up.len() == 0 {
            return Err("no active worker for namespace");
        }
        let ws: &WorkerState = match self.workers.get(&up[0]) {
            Some(ws) => ws,
            None => {
                return Err("worker not found");
            },
        };
        let cfg: WorkerWgConfig = match ws.wg_config {
            Some(cfg) => cfg,
            None => {
                return Err("worker does not have WireGuard configured");
            },
        };
        let host: &str = ws.capabilities.public_endpoint.as_str();
        if is_blank(host) {
            return Err("worker has no public endpoint");
        }
        Ok((cfg.public_key, host_port_text(host, cfg.listen_port)))
    }

    /// What a client's wish for a connection gives out and leaves to do.
    pub open spec fn connection_asked(
        self,
        client_id: ClientId,
        namespace_id: NamespaceId,
        client_public_key: [u8; 32],
        out: ClusterView,
        out_after: ClusterView,
        next: Seq<Task>,
    ) -> bool {
        match self.gateway(namespace_id.id()) {
            Ok(g) => {
                &&& out_after == out
                &&& next.len() == 1
                &&& next[0] matches Task::Run {
                    namespace_id: to,
                    input: NamespaceInput::Connect {
                        client_id: c,
                        client_public_key: k,
                        worker_wg_public_key,
                        worker_endpoint,
                    },
                    scheduled: false,
                } && to == namespace_id && c == client_id && k == client_public_key
                    && worker_wg_public_key == g.0 && worker_endpoint@ == g.1
            },
            Err(message) => out_after == out.with_error(client_id, message) && next.len() == 0,
        }
    }

    /// Leads a client to the first active worker of a namespace. The client is told why where that
    /// cannot be.
    pub fn handle_connect(
        &self,
        client_id: ClientId,
        namespace_id: NamespaceId,
        client_public_key: [u8; 32],
        out: &mut OrchestratorOutput,
    ) -> (r: Vec<Task>)
        ensures
            self.connection_asked(
                client_id,
                namespace_id,
                client_public_key,
                old(out)@,
                final(out)@,
                r@,
            ),
    {
        let mut r: Vec<Task> = Vec::new();
        match self.find_gateway(&namespace_id) {
            Ok((worker_wg_public_key, worker_endpoint)) => {
                r.push(
                    Task::Run {
                        namespace_id,
                        input: NamespaceInput::Connect {
                            client_id,
                            client_public_key,
                            worker_wg_public_key,
                            worker_endpoint,
                        },
                        scheduled: false,
                    },
                );
            },
            Err(message) => {
                out.tell(client_id, ClientEvent::error(message));
            },
        }
        r
    }
}

proof fn lemma_only_links_differ(a: Orchestrator, b: Orchestrator, c: Orchestrator)
    requires
        a.only_links_differ(b),
        b.only_links_differ(c),
    ensures
        a.only_links_differ(c),
{
    assert forall|n: Seq<char>| #[trigger] a.namespaces@.contains_key(n) implies c.namespaces@[n]
        == (NamespaceStateMachine {
        workers: c.namespaces@[n].workers,
        ..a.namespaces@[n]
    }) by {
        assert(b.namespaces@.dom().contains(n));
        assert(b.namespaces@.contains_key(n));
    }
    assert forall|w: Seq<char>| #[trigger] a.workers@.contains_key(w) implies c.workers@[w] == (
    WorkerState { namespaces: c.workers@[w].namespaces, ..a.workers@[w] }) by {
        assert(b.workers@.dom().contains(w));
        assert(b.workers@.contains_key(w));
    }
}

/// Whether a text is empty.
pub fn is_blank(text: &str) -> (r: bool)
    ensures
        r == (text@.len() == 0),
{
    text.unicode_len() == 0
}

} // verus!
