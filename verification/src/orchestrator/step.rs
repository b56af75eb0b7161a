//! One input at a time, and the tasks that it leaves.
use vstd::prelude::*;

use crate::ids::{ClientId, NamespaceId, WorkerId};
use crate::namespace::step::NamespaceInput;
use crate::orchestrator::client::ClientCommand;
use crate::orchestrator::scheduling::{pod_name, waiting};
use crate::orchestrator::segments::usable;
use crate::orchestrator::{
    ClusterView, Orchestrator, OrchestratorOutput, Task, WorkerCapabilities, WorkerTunnelConfig,
    WorkerWgConfig,
};
use crate::sorted_map::Key;

verus! {

/// What the cluster takes in.
pub enum OrchestratorInput {
    ClientConnected { client_id: ClientId },
    ClientDisconnected { client_id: ClientId },
    ClientCommand { client_id: ClientId, command: ClientCommand },
    WorkerConnected {
        worker_id: WorkerId,
        capabilities: WorkerCapabilities,
        wg_config: Option<WorkerWgConfig>,
        tunnel_config: Option<WorkerTunnelConfig>,
    },
    WorkerDisconnected { worker_id: WorkerId },
    NamespaceInput { namespace_id: NamespaceId, input: NamespaceInput },
}

impl Orchestrator {
    /// What an input changes, gives out and leaves to do.
    pub open spec fn takes(
        self,
        input: OrchestratorInput,
        after: Orchestrator,
        out: ClusterView,
        next: Seq<Task>,
    ) -> bool {
        let nothing = ClusterView::nothing();
        match input {
            OrchestratorInput::ClientConnected { client_id } => {
                &&& after == Orchestrator { clients: after.clients, ..self }
                &&& after.clients@ == self.clients@.insert(client_id, ())
                &&& out == nothing
                &&& next.len() == 0
            },
            OrchestratorInput::ClientDisconnected { client_id } => {
                &&& after == Orchestrator { clients: after.clients, ..self }
                &&& after.clients@ == self.clients@.remove(client_id)
                &&& out == nothing
                &&& next.len() == 0
            },
            OrchestratorInput::ClientCommand { client_id, command } => self.commanded(
                client_id,
                command,
                after,
                nothing,
                out,
                next,
            ),
            OrchestratorInput::WorkerConnected {
                worker_id,
                capabilities,
                wg_config,
                tunnel_config,
            } => if self.workers@.contains_key(worker_id.id()) {
                &&& out == nothing
                &&& next.len() > 0
                &&& self.departed(worker_id, after, next.drop_last())
                &&& next.last() == (Task::Welcome {
                    worker_id,
                    capabilities,
                    wg_config,
                    tunnel_config,
                })
            } else {
                &&& next.len() == 0
                &&& self.welcomed(
                    worker_id,
                    capabilities,
                    wg_config,
                    tunnel_config,
                    after,
                    nothing,
                    out,
                )
            },
            OrchestratorInput::WorkerDisconnected { worker_id } => {
                &&& out == nothing
                &&& self.departed(worker_id, after, next)
            },
            OrchestratorInput::NamespaceInput { namespace_id, input } => self.routed(
                namespace_id,
                input,
                after,
                nothing,
                out,
                next,
            ),
        }
    }

    /// A namespace is there, or there is a segment for it.
    pub open spec fn has_place(self, namespace: Seq<char>) -> bool {
        self.namespaces@.contains_key(namespace) || exists|id: u16|
            usable(self.active_segment_ids@, id)
    }

    /// An input can be taken: a new namespace finds a segment, and the pods of a worker that is
    /// reported on can be counted.
    pub open spec fn can_take(self, input: OrchestratorInput) -> bool {
        match input {
            OrchestratorInput::ClientCommand { command, .. } => {
                &&& command matches ClientCommand::CreateNamespace { namespace_id, .. }
                    ==> self.has_place(namespace_id.id())
                &&& command is ListWorkers || command is GetWorker ==> self.pods_countable()
            },
            _ => true,
        }
    }

    /// Takes one input. Returns what it gives out and what is still to be done, in order.
    pub fn step(&mut self, input: OrchestratorInput) -> (r: (OrchestratorOutput, Vec<Task>))
        requires
            old(self).can_take(input),
        ensures
            old(self).takes(input, *final(self), r.0@, r.1@),
    {
        let mut out: OrchestratorOutput = OrchestratorOutput::new();
        let mut next: Vec<Task> = Vec::new();
        match input {
            OrchestratorInput::ClientConnected { client_id } => {
                self.clients.insert(client_id, ());
            },
            OrchestratorInput::ClientDisconnected { client_id } => {
                let _ = self.clients.remove(&client_id);
            },
            OrchestratorInput::ClientCommand { client_id, command } => {
                next = self.handle_client_command(client_id, command, &mut out);
            },
            OrchestratorInput::WorkerConnected {
                worker_id,
                capabilities,
                wg_config,
                tunnel_config,
            } => {
                next = self.handle_worker_connected(
                    worker_id,
                    capabilities,
                    wg_config,
                    tunnel_config,
                    &mut out,
                );
            },
            OrchestratorInput::WorkerDisconnected { worker_id } => {
                next = self.handle_worker_disconnected(&worker_id);
            },
            OrchestratorInput::NamespaceInput { namespace_id, input } => {
                next = self.route_namespace_input(namespace_id, input, &mut out);
            },
        }
        (out, next)
    }

    /// What a task changes, gives out and leaves to do.
    pub open spec fn does(
        self,
        task: Task,
        after: Orchestrator,
        out: ClusterView,
        out_after: ClusterView,
        next: Seq<Task>,
    ) -> bool {
        match task {
            Task::Route { namespace_id, input } => self.routed(
                namespace_id,
                input,
                after,
                out,
                out_after,
                next,
            ),
            Task::Launch { namespace_id, workload_id } => {
                &&& out_after == out
                &&& if exists|w: Seq<char>|
                    self.namespaces@.contains_key(namespace_id.id()) && #[trigger] self.eligible(
                        self.namespaces@[namespace_id.id()],
                        w,
                    ) {
                    &&& after == Orchestrator {
                        next_pod_id: (self.next_pod_id + 1) as u64,
                        ..self
                    }
                    &&& next.len() == 1
                    &&& next[0] matches Task::Run {
                        namespace_id: n,
                        input: NamespaceInput::LaunchPod { workload_id: wl, worker_id, pod_id },
                        scheduled: true,
                    } && n == namespace_id && wl == workload_id && pod_id.0@ == pod_name(
                        self.next_pod_id as nat,
                    ) && self.best(self.namespaces@[namespace_id.id()], worker_id.id())
                } else {
                    after == self && next.len() == 0
                }
            },
            Task::Resume { namespace_id, workload_id, artifact_id } => {
                &&& out_after == out
                &&& after == Orchestrator { next_pod_id: (self.next_pod_id + 1) as u64, ..self }
                &&& if self.placement_table@.contains_key(artifact_id.id())
                    && self.namespaces@.contains_key(namespace_id.id()) {
                    let place = self.placement_table@[artifact_id.id()];
                    &&& next.len() == 1
                    &&& next[0] matches Task::Run {
                        namespace_id: n,
                        input: NamespaceInput::ResumePod {
                            workload_id: wl,
                            worker_id,
                            pod_id,
                            artifact_id: a,
                            pool_id,
                        },
                        scheduled: true,
                    } && n == namespace_id && wl == workload_id && a == artifact_id && worker_id
                        == place.worker_id && pool_id == place.pool_id && pod_id.0@ == pod_name(
                        self.next_pod_id as nat,
                    )
                } else {
                    next.len() == 0
                }
            },
            Task::ScheduleWaiting => {
                &&& after == self
                &&& out_after == out
                &&& next == waiting(self.namespaces.seq())
            },
            Task::RecomputeAll => {
                &&& after == self
                &&& out_after == out
                &&& next == self.worker_ids().map_values(
                    |w: WorkerId| Task::Recompute { worker_id: w },
                )
            },
            Task::RemoveNamespace { namespace_id } => {
                &&& self.without_namespace(namespace_id.id(), after)
                &&& out_after == after.registry_out(out)
                &&& next.len() == 0
            },
            Task::PushRegistry => {
                &&& after == self
                &&& out_after == self.registry_out(out)
                &&& next.len() == 0
            },
            Task::Welcome { worker_id, capabilities, wg_config, tunnel_config } => {
                &&& next.len() == 0
                &&& self.welcomed(
                    worker_id,
                    capabilities,
                    wg_config,
                    tunnel_config,
                    after,
                    out,
                    out_after,
                )
            },
            Task::Run { .. } => after == self && out_after == out && next == seq![task],
            Task::Recompute { .. } => after == self && out_after == out && next == seq![task],
        }
    }

    /// Does a task that stays inside the cluster. One that needs something from outside comes back
    /// as it is.
    pub fn perform(&mut self, task: Task, out: &mut OrchestratorOutput) -> (r: Vec<Task>)
        requires
            task is Launch || task is Resume ==> old(self).next_pod_id < u64::MAX,
        ensures
            old(self).does(task, *final(self), old(out)@, final(out)@, r@),
    {
        match task {
            Task::Route { namespace_id, input } => self.route_namespace_input(
                namespace_id,
                input,
                out,
            ),
            Task::Launch { namespace_id, workload_id } => self.launch(&namespace_id, &workload_id),
            Task::Resume { namespace_id, workload_id, artifact_id } => self.resume(
                &namespace_id,
                &workload_id,
                &artifact_id,
            ),
            Task::ScheduleWaiting => self.schedule_waiting_pods(),
            Task::RecomputeAll => self.recompute_all_worker_pressure(),
            Task::RemoveNamespace { namespace_id } => {
                self.remove_namespace(&namespace_id, out);
                Vec::new()
            },
            Task::PushRegistry => {
                self.push_worker_registry(out);
                Vec::new()
            },
            Task::Welcome { worker_id, capabilities, wg_config, tunnel_config } => {
                self.welcome(worker_id, capabilities, wg_config, tunnel_config, out);
                Vec::new()
            },
            other => {
                let mut r: Vec<Task> = Vec::new();
                r.push(other);
                assert(r@ =~= seq![task]);
                r
            },
        }
    }

    /// Determines the pressure of every worker anew, in the order of their names.
    pub fn recompute_all_worker_pressure(&self) -> (r: Vec<Task>)
        ensures
            r@ == self.worker_ids().map_values(|w: WorkerId| Task::Recompute { worker_id: w }),
    {
        let n: usize = self.workers.len();
        let ghost all = self.worker_ids().map_values(|w: WorkerId| Task::Recompute { worker_id: w });
        let mut r: Vec<Task> = Vec::new();
        let mut i: usize = 0;
        while i < n
            invariant
                n == self.workers.seq().len(),
                i <= n,
                all == self.worker_ids().map_values(
                    |w: WorkerId| Task::Recompute { worker_id: w },
                ),
                r@ == all.take(i as int),
            decreases n - i,
        {
            r.push(Task::Recompute { worker_id: self.workers.key_at(i).clone() });
            assert(r@ =~= all.take(i + 1));
            i = i + 1;
        }
        assert(all.take(i as int) =~= all);
        r
    }
}

/// No task starts a pod under a name that was given out before, and names are never given out anew.
pub proof fn law_pod_numbers_grow(
    before: Orchestrator,
    task: Task,
    after: Orchestrator,
    out: ClusterView,
    out_after: ClusterView,
    next: Seq<Task>,
)
    requires
        before.does(task, after, out, out_after, next),
        before.next_pod_id < u64::MAX,
    ensures
        before.next_pod_id <= after.next_pod_id <= before.next_pod_id + 1,
        !(task is Run) ==> forall|i: int|
            0 <= i < next.len() ==> ((#[trigger] next[i]) matches Task::Run {
                input: NamespaceInput::LaunchPod { pod_id, .. },
                scheduled: true,
                ..
            } ==> pod_id.0@ == pod_name(before.next_pod_id as nat) && after.next_pod_id
                == before.next_pod_id + 1),
{
    if task is ScheduleWaiting {
        lemma_waiting_are_launches(before.namespaces.seq());
    }
}

pub proof fn lemma_waiting_are_launches(
    namespaces: Seq<(NamespaceId, crate::namespace::NamespaceStateMachine)>,
)
    ensures
        forall|i: int|
            0 <= i < waiting(namespaces).len() ==> (#[trigger] waiting(namespaces)[i]) is Launch,
    decreases namespaces.len(),
{
    if namespaces.len() > 0 {
        lemma_waiting_are_launches(namespaces.drop_last());
        lemma_waiting_in_are_launches(
            namespaces.last().0,
            namespaces.last().1.workloads.seq(),
        );
    }
}

proof fn lemma_waiting_in_are_launches(
    namespace_id: NamespaceId,
    workloads: Seq<(crate::ids::WorkloadId, crate::workload::Workload)>,
)
    ensures
        forall|i: int|
            0 <= i < crate::orchestrator::scheduling::waiting_in(namespace_id, workloads).len()
                ==> (#[trigger] crate::orchestrator::scheduling::waiting_in(
                namespace_id,
                workloads,
            )[i]) is Launch,
    decreases workloads.len(),
{
    if workloads.len() > 0 {
        lemma_waiting_in_are_launches(namespace_id, workloads.drop_last());
    }
}

} // verus!
