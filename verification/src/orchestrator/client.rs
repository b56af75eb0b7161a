//! What clients ask for.
use vstd::prelude::*;

use crate::ids::{ClientId, NamespaceId, ServiceId, WorkerId, WorkloadId};
use crate::namespace::step::NamespaceInput;
use crate::namespace::NamespaceStateMachine;
use crate::orchestrator::routing::pods_on;
use crate::orchestrator::segments::{first_usable, place, usable};
use crate::orchestrator::{ClusterView, Orchestrator, OrchestratorOutput, Task, WorkerState};
use crate::output::{
    ClientEvent, ClientEventView, NamespaceStatusReport, ReportView, WorkerStatusReport,
};
use crate::sorted_map::Key;
use crate::text::{debug_text, quoted};
use crate::types::{NamespaceSpec, NetworkConfig};

verus! {

/// What a client asks of the cluster.
pub enum ClientCommand {
    CreateNamespace { namespace_id: NamespaceId, spec: NamespaceSpec },
    DeleteNamespace { namespace_id: NamespaceId },
    UpdateNamespace { namespace_id: NamespaceId, spec: NamespaceSpec },
    GetNamespaceStatus { namespace_id: NamespaceId },
    ListNamespaces,
    Splice { namespace_id: NamespaceId, workload_id: WorkloadId, worker_id: WorkerId },
    Unsplice { namespace_id: NamespaceId, workload_id: WorkloadId },
    CloneNamespace { source_namespace_id: NamespaceId, target_namespace_id: NamespaceId },
    ListWorkers,
    GetWorker { worker_id: WorkerId },
    ListPods { namespace_id: NamespaceId },
    StreamLogs { namespace_id: NamespaceId, service_id: ServiceId },
    Connect { namespace_id: NamespaceId, client_public_key: [u8; 32] },
    Disconnect { namespace_id: NamespaceId, client_public_key: [u8; 32] },
    DeactivateWorkload { namespace_id: NamespaceId, workload_id: WorkloadId },
}

/// `namespace "name" already exists`.
pub open spec fn exists_message(name: Seq<char>) -> Seq<char> {
    taken_message(debug_text(name))
}

/// `namespace name already exists`, with the name as it is to be shown.
pub open spec fn taken_message(shown: Seq<char>) -> Seq<char> {
    "namespace "@ + shown + " already exists"@
}

/// Says that a name is taken. `shown` is the name as the client is to see it.
pub fn taken_text(shown: &str) -> (r: String)
    ensures
        r@ == taken_message(shown@),
{
    let mut r: String = "namespace ".to_owned();
    r.append(shown);
    r.append(" already exists");
    r
}

/// `kind 'name' not found`.
pub open spec fn missing_message(kind: Seq<char>, name: Seq<char>) -> Seq<char> {
    kind + " '"@ + name + "' not found"@
}

fn missing_text(kind: &str, name: &str) -> (r: String)
    ensures
        r@ == missing_message(kind@, name@),
{
    let mut r: String = kind.to_owned();
    r.append(" '");
    r.append(name);
    r.append("' not found");
    r
}

impl Orchestrator {
    /// `mid` is `self` with a new namespace, which has taken the segment that comes next.
    pub open spec fn opened(
        self,
        namespace_id: NamespaceId,
        spec: NamespaceSpec,
        segment_id: u16,
        mid: Orchestrator,
    ) -> bool {
        let n = namespace_id.id();
        &&& first_usable(self.active_segment_ids@, self.next_segment_id, segment_id)
        &&& mid == Orchestrator {
            namespaces: mid.namespaces,
            next_segment_id: place(segment_id, 1),
            active_segment_ids: mid.active_segment_ids,
            ..self
        }
        &&& mid.active_segment_ids@ == self.active_segment_ids@.insert(segment_id, ())
        &&& mid.namespaces@ == self.namespaces@.insert(n, mid.namespaces@[n])
        &&& mid.namespaces@[n].fresh(
            namespace_id,
            NamespaceSpec {
                network: NetworkConfig { segment_id: Some(segment_id), ..spec.network },
                ..spec
            },
            segment_id,
        )
    }

    /// What the creation of a namespace changes and gives out: every worker is assigned to it, and
    /// the workers are told of each other.
    pub open spec fn created(
        self,
        client_id: ClientId,
        namespace_id: NamespaceId,
        spec: NamespaceSpec,
        after: Orchestrator,
        out: ClusterView,
        out_after: ClusterView,
    ) -> bool {
        exists|segment_id: u16, mid: Orchestrator|
            {
                &&& #[trigger] self.opened(namespace_id, spec, segment_id, mid)
                &&& mid.only_links_differ(after)
                &&& after.links() == mid.with_all_assigned(namespace_id.id(), mid.workers.seq())
                &&& out_after == after.registry_out(
                    mid.assignments_of(namespace_id, mid.workers.seq(), out),
                ).with_client_event(client_id, ClientEventView::Done)
            }
    }

    fn create_namespace(
        &mut self,
        client_id: ClientId,
        namespace_id: NamespaceId,
        spec: NamespaceSpec,
        out: &mut OrchestratorOutput,
    )
        requires
            exists|id: u16| usable(old(self).active_segment_ids@, id),
        ensures
            old(self).created(
                client_id,
                namespace_id,
                spec,
                *final(self),
                old(out)@,
                final(out)@,
            ),
    {
        let ghost before = *self;
        let ghost given = spec;
        let segment_id: u16 = self.alloc_segment_id();
        let mut spec: NamespaceSpec = spec;
        spec.network.segment_id = Some(segment_id);
        let ns = NamespaceStateMachine::new(namespace_id.clone(), spec, segment_id);
        self.namespaces.insert(namespace_id.clone(), ns);
        let ghost mid = *self;
        assert(before.opened(namespace_id, given, segment_id, mid));
        self.assign_all_workers(&namespace_id, out);
        self.push_worker_registry(out);
        out.tell(client_id, ClientEvent::Done);
    }

    /// What is reported of a worker.
    pub open spec fn worker_report(self, worker_id: WorkerId, ws: WorkerState) -> WorkerStatusReport {
        WorkerStatusReport {
            worker_id,
            max_pods: ws.capabilities.max_pods,
            available_memory_mb: ws.capabilities.available_memory_mb,
            active_pods: pods_on(self.namespaces.seq(), worker_id.id()) as u32,
        }
    }

    /// No worker has more pods than can be counted.
    pub open spec fn pods_countable(self) -> bool {
        forall|w: Seq<char>| #[trigger] pods_on(self.namespaces.seq(), w) <= usize::MAX
    }

    fn report_worker(&self, worker_id: &WorkerId, ws: &WorkerState) -> (r: WorkerStatusReport)
        requires
            self.pods_countable(),
        ensures
            r == self.worker_report(*worker_id, *ws),
    {
        let active_pods: usize = self.pod_count(worker_id);
        WorkerStatusReport {
            worker_id: worker_id.clone(),
            max_pods: ws.capabilities.max_pods,
            available_memory_mb: ws.capabilities.available_memory_mb,
            active_pods: active_pods as u32,
        }
    }

    fn report_workers(&self) -> (r: Vec<WorkerStatusReport>)
        requires
            self.pods_countable(),
        ensures
            r@ == self.workers.seq().map_values(
                |e: (WorkerId, WorkerState)| self.worker_report(e.0, e.1),
            ),
    {
        let n: usize = self.workers.len();
        let ghost all = self.workers.seq().map_values(
            |e: (WorkerId, WorkerState)| self.worker_report(e.0, e.1),
        );
        let mut r: Vec<WorkerStatusReport> = Vec::new();
        let mut i: usize = 0;
        while i < n
            invariant
                n == self.workers.seq().len(),
                i <= n,
                self.pods_countable(),
                all == self.workers.seq().map_values(
                    |e: (WorkerId, WorkerState)| self.worker_report(e.0, e.1),
                ),
                r@ == all.take(i as int),
            decreases n - i,
        {
            r.push(self.report_worker(self.workers.key_at(i), self.workers.value_at(i)));
            assert(r@ =~= all.take(i + 1));
            i = i + 1;
        }
        assert(all.take(i as int) =~= all);
        r
    }

    /// What is reported of all namespaces.
    pub open spec fn namespace_reports(self) -> Seq<ReportView> {
        self.namespaces.seq().map_values(
            |e: (NamespaceId, NamespaceStateMachine)| e.1.report(),
        )
    }

    fn report_namespaces(&self) -> (r: Vec<NamespaceStatusReport>)
        ensures
            r@.map_values(|n: NamespaceStatusReport| n@) == self.namespace_reports(),
    {
        let n: usize = self.namespaces.len();
        let ghost all = self.namespace_reports();
        let mut r: Vec<NamespaceStatusReport> = Vec::new();
        let mut i: usize = 0;
        while i < n
            invariant
                n == self.namespaces.seq().len(),
                i <= n,
                all == self.namespace_reports(),
                r@.len() == i,
                forall|j: int| 0 <= j < i ==> (#[trigger] r@[j])@ == all[j],
            decreases n - i,
        {
            r.push(self.namespaces.value_at(i).status_report());
            i = i + 1;
        }
        assert(r@.map_values(|n: NamespaceStatusReport| n@) =~= all);
        r
    }

    /// What a client's command changes, gives out and leaves to do.
    pub open spec fn commanded(
        self,
        client_id: ClientId,
        command: ClientCommand,
        after: Orchestrator,
        out: ClusterView,
        out_after: ClusterView,
        next: Seq<Task>,
    ) -> bool {
        match command {
            ClientCommand::CreateNamespace { namespace_id, spec } => {
                &&& next.len() == 0
                &&& if self.namespaces@.contains_key(namespace_id.id()) {
                    &&& after == self
                    &&& out_after == out.with_error(client_id, exists_message(namespace_id.0@))
                } else {
                    self.created(client_id, namespace_id, spec, after, out, out_after)
                }
            },
            ClientCommand::DeleteNamespace { namespace_id } => self.routed(
                namespace_id,
                NamespaceInput::Delete { client_id },
                after,
                out,
                out_after,
                next,
            ),
            ClientCommand::UpdateNamespace { namespace_id, spec } => self.routed(
                namespace_id,
                NamespaceInput::UpdateSpec { client_id, spec },
                after,
                out,
                out_after,
                next,
            ),
            ClientCommand::GetNamespaceStatus { namespace_id } => self.routed(
                namespace_id,
                NamespaceInput::GetStatus { client_id },
                after,
                out,
                out_after,
                next,
            ),
            ClientCommand::ListNamespaces => {
                &&& after == self
                &&& next.len() == 0
                &&& out_after == out.with_client_event(
                    client_id,
                    ClientEventView::NamespaceList { namespaces: self.namespace_reports() },
                )
            },
            ClientCommand::Splice { namespace_id, workload_id, worker_id } => self.routed(
                namespace_id,
                NamespaceInput::Splice { client_id, workload_id, worker_id },
                after,
                out,
                out_after,
                next,
            ),
            ClientCommand::Unsplice { namespace_id, workload_id } => self.routed(
                namespace_id,
                NamespaceInput::Unsplice { client_id, workload_id },
                after,
                out,
                out_after,
                next,
            ),
            ClientCommand::CloneNamespace { .. } => {
                &&& after == self
                &&& next.len() == 0
                &&& out_after == out.with_error(client_id, "CloneNamespace not yet implemented"@)
            },
            ClientCommand::ListWorkers => {
                &&& after == self
                &&& next.len() == 0
                &&& out_after == out.with_client_event(
                    client_id,
                    ClientEventView::WorkerList {
                        workers: self.workers.seq().map_values(
                            |e: (WorkerId, WorkerState)| self.worker_report(e.0, e.1),
                        ),
                    },
                )
            },
            ClientCommand::GetWorker { worker_id } => {
                &&& after == self
                &&& next.len() == 0
                &&& out_after == if self.workers@.contains_key(worker_id.id()) {
                    out.with_client_event(
                        client_id,
                        ClientEventView::WorkerStatus {
                            worker: self.worker_report(worker_id, self.workers@[worker_id.id()]),
                        },
                    )
                } else {
                    out.with_error(client_id, missing_message("worker"@, worker_id.0@))
                }
            },
            ClientCommand::ListPods { namespace_id } => {
                &&& after == self
                &&& next.len() == 0
                &&& out_after == if self.namespaces@.contains_key(namespace_id.id()) {
                    out.with_client_event(
                        client_id,
                        ClientEventView::PodList {
                            pods: self.namespaces@[namespace_id.id()].report().pods,
                        },
                    )
                } else {
                    out.with_error(client_id, missing_message("namespace"@, namespace_id.0@))
                }
            },
            ClientCommand::StreamLogs { namespace_id, service_id } => self.routed(
                namespace_id,
                NamespaceInput::StreamLogs { client_id, service_id },
                after,
                out,
                out_after,
                next,
            ),
            ClientCommand::Connect { namespace_id, client_public_key } => {
                &&& after == self
                &&& self.connection_asked(
                    client_id,
                    namespace_id,
                    client_public_key,
                    out,
                    out_after,
                    next,
                )
            },
            ClientCommand::Disconnect { namespace_id, client_public_key } => self.routed(
                namespace_id,
                NamespaceInput::Disconnect { client_id, client_public_key },
                after,
                out,
                out_after,
                next,
            ),
            ClientCommand::DeactivateWorkload { namespace_id, workload_id } => self.routed(
                namespace_id,
                NamespaceInput::DeactivateWorkload { client_id, workload_id },
                after,
                out,
                out_after,
                next,
            ),
        }
    }

    /// Does what a client asks for, or passes it on to the namespace that it is for.
    pub fn handle_client_command(
        &mut self,
        client_id: ClientId,
        command: ClientCommand,
        out: &mut OrchestratorOutput,
    ) -> (r: Vec<Task>)
        requires
            command matches ClientCommand::CreateNamespace { namespace_id, .. } ==> old(
                self,
            ).has_place(namespace_id.id()),
            command is ListWorkers || command is GetWorker ==> old(self).pods_countable(),
        ensures
            old(self).commanded(client_id, command, *final(self), old(out)@, final(out)@, r@),
    {
        match command {
            ClientCommand::CreateNamespace { namespace_id, spec } => {
                if self.namespaces.contains_key(&namespace_id) {
                    let message: String = taken_text(quoted(namespace_id.0.as_str()).as_str());
                    out.tell(client_id, ClientEvent::Error { message });
                } else {
                    self.create_namespace(client_id, namespace_id, spec, out);
                }
                Vec::new()
            },
            ClientCommand::DeleteNamespace { namespace_id } => self.route_namespace_input(
                namespace_id,
                NamespaceInput::Delete { client_id },
                out,
            ),
            ClientCommand::UpdateNamespace { namespace_id, spec } => self.route_namespace_input(
                namespace_id,
                NamespaceInput::UpdateSpec { client_id, spec },
                out,
            ),
            ClientCommand::GetNamespaceStatus { namespace_id } => self.route_namespace_input(
                namespace_id,
                NamespaceInput::GetStatus { client_id },
                out,
            ),
            ClientCommand::ListNamespaces => {
                let event = ClientEvent::NamespaceList { namespaces: self.report_namespaces() };
                out.tell(client_id, event);
                Vec::new()
            },
            ClientCommand::Splice { namespace_id, workload_id, worker_id } => {
                self.route_namespace_input(
                    namespace_id,
                    NamespaceInput::Splice { client_id, workload_id, worker_id },
                    out,
                )
            },
            ClientCommand::Unsplice { namespace_id, workload_id } => self.route_namespace_input(
                namespace_id,
                NamespaceInput::Unsplice { client_id, workload_id },
                out,
            ),
            ClientCommand::CloneNamespace { .. } => {
                out.tell(client_id, ClientEvent::error("CloneNamespace not yet implemented"));
                Vec::new()
            },
            ClientCommand::ListWorkers => {
                let event = ClientEvent::WorkerList { workers: self.report_workers() };
                out.tell(client_id, event);
                Vec::new()
            },
            ClientCommand::GetWorker { worker_id } => {
                let event = match self.workers.get(&worker_id) {
                    Some(ws) => ClientEvent::WorkerStatus {
                        worker: self.report_worker(&worker_id, ws),
                    },
                    None => ClientEvent::Error {
                        message: missing_text("worker", worker_id.0.as_str()),
                    },
                };
                out.tell(client_id, event);
                Vec::new()
            },
            ClientCommand::ListPods { namespace_id } => {
                let event = match self.namespaces.get(&namespace_id) {
                    Some(ns) => ClientEvent::PodList { pods: ns.pod_reports() },
                    None => ClientEvent::Error {
                        message: missing_text("namespace", namespace_id.0.as_str()),
                    },
                };
                out.tell(client_id, event);
                Vec::new()
            },
            ClientCommand::StreamLogs { namespace_id, service_id } => self.route_namespace_input(
                namespace_id,
                NamespaceInput::StreamLogs { client_id, service_id },
                out,
            ),
            ClientCommand::Connect { namespace_id, client_public_key } => self.handle_connect(
                client_id,
                namespace_id,
                client_public_key,
                out,
            ),
            ClientCommand::Disconnect { namespace_id, client_public_key } => {
                self.route_namespace_input(
                    namespace_id,
                    NamespaceInput::Disconnect { client_id, client_public_key },
                    out,
                )
            },
            ClientCommand::DeactivateWorkload { namespace_id, workload_id } => {
                self.route_namespace_input(
                    namespace_id,
                    NamespaceInput::DeactivateWorkload { client_id, workload_id },
                    out,
                )
            },
        }
    }
}

/// A new namespace gets a segment of its own.
pub proof fn law_creation_keeps_segments_apart(
    before: Orchestrator,
    client_id: ClientId,
    namespace_id: NamespaceId,
    spec: NamespaceSpec,
    after: Orchestrator,
    out: ClusterView,
    out_after: ClusterView,
)
    requires
        before.created(client_id, namespace_id, spec, after, out, out_after),
        before.segments_match(),
        !before.namespaces@.contains_key(namespace_id.id()),
    ensures
        after.segments_match(),
        after.namespaces@.contains_key(namespace_id.id()),
{
    let (segment_id, mid) = choose|segment_id: u16, mid: Orchestrator|
        {
            &&& #[trigger] before.opened(namespace_id, spec, segment_id, mid)
            &&& mid.only_links_differ(after)
            &&& after.links() == mid.with_all_assigned(namespace_id.id(), mid.workers.seq())
            &&& out_after == after.registry_out(
                mid.assignments_of(namespace_id, mid.workers.seq(), out),
            ).with_client_event(client_id, ClientEventView::Done)
        };
    let c = namespace_id.id();
    assert(mid.namespaces@.dom().contains(c));
    assert(mid.namespaces@.contains_key(c));
    assert forall|n: Seq<char>| #[trigger]
        after.namespaces@.contains_key(n) implies mid.namespaces@.contains_key(n)
        && after.namespaces@[n].segment_id == mid.namespaces@[n].segment_id
        && after.active_segment_ids@.contains_key(after.namespaces@[n].segment_id) by {
        assert(after.namespaces@.dom().contains(n));
        assert(mid.namespaces@.contains_key(n));
        if n != c {
            assert(before.namespaces@.contains_key(n));
        }
    }
    assert forall|n: Seq<char>, m: Seq<char>|
        #![trigger after.namespaces@[n], after.namespaces@[m]]
        after.namespaces@.contains_key(n) && after.namespaces@.contains_key(m) && n
            != m implies after.namespaces@[n].segment_id != after.namespaces@[m].segment_id by {
        if n == c {
            assert(before.namespaces@.contains_key(m));
            assert(before.active_segment_ids@.contains_key(before.namespaces@[m].segment_id));
        } else if m == c {
            assert(before.namespaces@.contains_key(n));
            assert(before.active_segment_ids@.contains_key(before.namespaces@[n].segment_id));
        } else {
            assert(before.namespaces@[n].segment_id != before.namespaces@[m].segment_id);
        }
    }
    assert forall|id: u16| #[trigger]
        after.active_segment_ids@.contains_key(id) implies exists|n: Seq<char>| #[trigger]
        after.namespaces@.contains_key(n) && after.namespaces@[n].segment_id == id by {
        if id == segment_id {
            assert(after.namespaces@.contains_key(c));
        } else {
            assert(before.active_segment_ids@.contains_key(id));
            let n = choose|n: Seq<char>| #[trigger]
                before.namespaces@.contains_key(n) && before.namespaces@[n].segment_id == id;
            assert(mid.namespaces@.dom().contains(n));
            assert(after.namespaces@.contains_key(n));
        }
    }
}

} // verus!
