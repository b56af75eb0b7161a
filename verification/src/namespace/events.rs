//! What workers report, the loss of a worker, and timers.
use vstd::prelude::*;

use crate::ids::{ArtifactId, PodId, PoolId, ServiceId, WorkerId, WorkloadId};
use crate::namespace::{demand_checks, FollowUp, NamespaceStateMachine};
use crate::output::{NamespaceOutput, OutputView, SmWorkloadEvent, WorkloadEventView};
use crate::placement::{off_worker, ArtifactPlacement, ArtifactStatus, PlacementTable};
use crate::pod_map::{without_worker, PodInfo};
use crate::service::ServiceInput;
use crate::sorted_map::{erase, position, Key};
use crate::types::{
    BackendNeed, FabricStatus, NamespaceStatus, NamespaceWorkerState, TimerKey, WorkloadSpec,
};
use crate::workload::{PodGoneReason, RetiringPod, Workload, WorkloadInput};

verus! {

/// What a worker reports about one namespace.
#[derive(Debug, PartialEq, Eq)]
pub enum WorkerEvent {
    NamespaceCreated,
    NamespaceFailed { error: String },
    NamespaceDestroyed,
    ServiceBackendNeed { service_id: ServiceId, need: BackendNeed },
    PodRunning { pod_id: PodId },
    PodExited { pod_id: PodId, exit_code: i32 },
    PodFailed { pod_id: PodId, error: String },
    ArtifactWriteStarted { artifact_id: ArtifactId, pool_id: PoolId },
    ArtifactWriteCommitted { artifact_id: ArtifactId, pool_id: PoolId, size_bytes: u64 },
    PodSuspended { pod_id: PodId, artifact_id: ArtifactId, pool_id: PoolId },
    PodSuspendFailed { pod_id: PodId, error: String },
    EndpointActivation { ip: u32, service_id: Option<ServiceId> },
    EndpointFlowStatus { ip: u32, service_id: Option<ServiceId>, has_active_flows: bool },
}

/// A step of a workload, then a check of its demand.
pub open spec fn step_then_demand(workload_id: WorkloadId, input: WorkloadInput) -> Seq<FollowUp> {
    seq![
        FollowUp::StepWorkload { workload_id, input, retry: false },
        FollowUp::ReconcileDemand { workload_id },
    ]
}

fn then_demand(workload_id: &WorkloadId, input: WorkloadInput) -> (r: Vec<FollowUp>)
    ensures
        r@ == step_then_demand(*workload_id, input),
{
    let mut r: Vec<FollowUp> = Vec::new();
    r.push(FollowUp::StepWorkload { workload_id: workload_id.clone(), input, retry: false });
    r.push(FollowUp::ReconcileDemand { workload_id: workload_id.clone() });
    assert(r@ =~= step_then_demand(*workload_id, input));
    r
}

fn only_demand(workload_id: &WorkloadId) -> (r: Vec<FollowUp>)
    ensures
        r@ == seq![FollowUp::ReconcileDemand { workload_id: *workload_id }],
{
    let mut r: Vec<FollowUp> = Vec::new();
    r.push(FollowUp::ReconcileDemand { workload_id: workload_id.clone() });
    r
}

/// Whether some worker's fabric is up.
pub open spec fn any_active(workers: Seq<(WorkerId, NamespaceWorkerState)>) -> bool {
    exists|i: int|
        0 <= i < workers.len() && (#[trigger] workers[i]).1.fabric_status == FabricStatus::Active
}

/// The first workload, in name order, that has an address.
pub open spec fn workload_at(workloads: Seq<(WorkloadId, WorkloadSpec)>, ip: u32) -> Option<
    WorkloadId,
>
    decreases workloads.len(),
{
    if workloads.len() == 0 {
        None
    } else if workloads[0].1.network.ip == ip {
        Some(workloads[0].0)
    } else {
        workload_at(workloads.drop_first(), ip)
    }
}

/// The pod that an event says is gone, what is noted of it, and what the workload is told.
pub struct PodEnd {
    pub pod_id: PodId,
    pub event: WorkloadEventView,
    pub input: WorkloadInput,
}

/// How a pod's end is passed on. `worker_id` is the worker that hosted it.
pub open spec fn pod_end(event: WorkerEvent, worker_id: WorkerId) -> Option<PodEnd> {
    match event {
        WorkerEvent::PodExited { pod_id, exit_code } => Some(
            PodEnd {
                pod_id,
                event: WorkloadEventView::PodStopped { exit_code },
                input: WorkloadInput::PodGone {
                    pod_id,
                    reason: PodGoneReason::Exited { exit_code },
                },
            },
        ),
        WorkerEvent::PodFailed { pod_id, error } => Some(
            PodEnd {
                pod_id,
                event: WorkloadEventView::PodFailed { reason: error@ },
                input: WorkloadInput::PodGone { pod_id, reason: PodGoneReason::Failed { error } },
            },
        ),
        WorkerEvent::PodSuspended { pod_id, artifact_id, .. } => Some(
            PodEnd {
                pod_id,
                event: WorkloadEventView::PodSuspended { worker_id, artifact_id },
                input: WorkloadInput::PodSuspended { pod_id, artifact_id },
            },
        ),
        WorkerEvent::PodSuspendFailed { pod_id, error } => Some(
            PodEnd {
                pod_id,
                event: WorkloadEventView::PodSuspendFailed { reason: error@ },
                input: WorkloadInput::PodSuspendFailed { pod_id },
            },
        ),
        _ => None,
    }
}

/// The workloads whose pod a worker hosts.
pub open spec fn hosted(workloads: Seq<(WorkloadId, Workload)>, worker: Seq<char>) -> Seq<WorkloadId>
    decreases workloads.len(),
{
    if workloads.len() == 0 {
        seq![]
    } else {
        let rest = hosted(workloads.drop_last(), worker);
        match workloads.last().1.status.state.worker() {
            Some(w) if w.id() == worker => rest.push(workloads.last().0),
            _ => rest,
        }
    }
}

/// The suspended workloads whose snapshot is nowhere.
pub open spec fn stale(
    workloads: Seq<(WorkloadId, Workload)>,
    placements: Map<Seq<char>, ArtifactPlacement>,
) -> Seq<WorkloadId>
    decreases workloads.len(),
{
    if workloads.len() == 0 {
        seq![]
    } else {
        let rest = stale(workloads.drop_last(), placements);
        match workloads.last().1.status.state.snapshot() {
            Some(a) if !placements.contains_key(a.id()) => rest.push(workloads.last().0),
            _ => rest,
        }
    }
}

/// Whether one of the pods on their way out is on a worker.
pub open spec fn retires_on(retiring: Seq<RetiringPod>, worker: Seq<char>) -> bool {
    exists|i: int| 0 <= i < retiring.len() && (#[trigger] retiring[i]).worker_id.id() == worker
}

/// The workloads that have a pod on its way out on a worker.
pub open spec fn retiring_on(workloads: Seq<(WorkloadId, Workload)>, worker: Seq<char>) -> Seq<
    WorkloadId,
>
    decreases workloads.len(),
{
    if workloads.len() == 0 {
        seq![]
    } else {
        let rest = retiring_on(workloads.drop_last(), worker);
        if retires_on(workloads.last().1.status.retiring@, worker) {
            rest.push(workloads.last().0)
        } else {
            rest
        }
    }
}

/// Whether a list names a workload.
pub open spec fn lists(list: Seq<WorkloadId>, workload: Seq<char>) -> bool {
    exists|i: int| 0 <= i < list.len() && (#[trigger] list[i]).id() == workload
}

/// `list` with the first mention of each workload only.
pub open spec fn unique(list: Seq<WorkloadId>) -> Seq<WorkloadId>
    decreases list.len(),
{
    if list.len() == 0 {
        seq![]
    } else {
        let rest = unique(list.drop_last());
        if lists(rest, list.last().id()) {
            rest
        } else {
            rest.push(list.last())
        }
    }
}

/// The workloads that the loss of a worker concerns: those that it hosts, those whose snapshot is
/// gone, and those with a pod on its way out there.
pub open spec fn concerned(
    workloads: Seq<(WorkloadId, Workload)>,
    placements: Map<Seq<char>, ArtifactPlacement>,
    worker: Seq<char>,
) -> Seq<WorkloadId> {
    unique(hosted(workloads, worker) + stale(workloads, placements) + retiring_on(workloads, worker))
}

/// Each workload learns of the loss, and its demand is checked.
pub open spec fn loss_told(list: Seq<WorkloadId>, worker_id: WorkerId) -> Seq<FollowUp>
    decreases list.len(),
{
    if list.len() == 0 {
        seq![]
    } else {
        loss_told(list.drop_last(), worker_id) + step_then_demand(
            list.last(),
            WorkloadInput::WorkerLost { worker_id },
        )
    }
}

/// What follows the loss of a worker, where the remaining snapshots lie as `placements` says.
pub open spec fn loss_next(
    workloads: Seq<(WorkloadId, Workload)>,
    placements: Map<Seq<char>, ArtifactPlacement>,
    worker_id: WorkerId,
) -> Seq<FollowUp> {
    loss_told(concerned(workloads, placements, worker_id.id()), worker_id).push(
        FollowUp::DropWorker { worker_id },
    )
}

impl NamespaceStateMachine {
    /// `after` is `self` when the pods of a lost worker are dropped.
    pub open spec fn without_pods_of(self, worker: Seq<char>, after: NamespaceStateMachine) -> bool {
        &&& after == NamespaceStateMachine { pod_map: after.pod_map, ..self }
        &&& after.pod_map@ == without_worker(self.pod_map@, worker)
    }

    /// `after` is `self` when a worker's fabric has come up.
    pub open spec fn with_fabric(self, worker: Seq<char>, after: NamespaceStateMachine) -> bool {
        let s = self.workers.seq();
        let p = position(s, worker);
        &&& after == NamespaceStateMachine { workers: after.workers, status: after.status, ..self }
        &&& after.workers.seq() == if s[p].1.fabric_status == FabricStatus::Creating {
            s.update(
                p,
                (s[p].0, NamespaceWorkerState { fabric_status: FabricStatus::Active, ..s[p].1 }),
            )
        } else {
            s
        }
        &&& after.status == if self.status == NamespaceStatus::Creating && any_active(
            after.workers.seq(),
        ) {
            NamespaceStatus::Active
        } else {
            self.status
        }
    }

    /// What is given out when a worker's fabric has come up and the namespace is then `after`: the
    /// first worker makes every active worker current, a later one only itself.
    pub open spec fn fabric_out(
        self,
        worker_id: WorkerId,
        after: NamespaceStateMachine,
        out: OutputView,
    ) -> OutputView {
        if after.status != NamespaceStatus::Active {
            out
        } else if self.status == NamespaceStatus::Creating {
            out.with_commands(after.broadcast(after.registry_sync())).with_commands(
                after.broadcast(after.endpoint_sync()),
            )
        } else {
            out.with_command(worker_id, after.registry_sync()).with_command(
                worker_id,
                after.endpoint_sync(),
            )
        }
    }

    /// The workload that an endpoint report speaks of.
    pub open spec fn flow_target(self, ip: u32, service_id: Option<ServiceId>) -> Option<
        WorkloadId,
    > {
        match service_id {
            Some(s) => if self.service_workload@.contains_key(s.id()) {
                Some(self.service_workload@[s.id()])
            } else {
                None
            },
            None => workload_at(self.spec.workloads.seq(), ip),
        }
    }

    /// What an input to a service changes, gives out and leaves to do. A service that is not there
    /// takes no input.
    pub open spec fn service_told(
        self,
        service_id: ServiceId,
        input: ServiceInput,
        after: NamespaceStateMachine,
        out: OutputView,
        out_after: OutputView,
        next: Seq<FollowUp>,
    ) -> bool {
        let s = service_id.id();
        if self.services@.contains_key(s) {
            &&& self.with_stepped(s, input, after)
            &&& out_after == self.step_out(service_id, input, out)
            &&& next == seq![
                FollowUp::ReconcileDemand { workload_id: self.services@[s].workload_id },
            ]
        } else {
            after == self && out_after == out && next.len() == 0
        }
    }

    /// What a change of a workload's flows changes and leaves to do.
    pub open spec fn flows_told(
        self,
        target: Option<WorkloadId>,
        has_active_flows: bool,
        after: NamespaceStateMachine,
        next: Seq<FollowUp>,
    ) -> bool {
        match target {
            Some(w) => {
                &&& after == NamespaceStateMachine { active_flows: after.active_flows, ..self }
                &&& after.active_flows@ == if has_active_flows {
                    self.active_flows@.insert(w.id(), ())
                } else {
                    self.active_flows@.remove(w.id())
                }
                &&& next == seq![FollowUp::ReconcileDemand { workload_id: w }]
            },
            None => after == self && next.len() == 0,
        }
    }

    /// What the end of a pod changes, gives out and leaves to do.
    pub open spec fn pod_ended(
        self,
        pod: Seq<char>,
        end: PodEnd,
        after: NamespaceStateMachine,
        out: OutputView,
        out_after: OutputView,
        next: Seq<FollowUp>,
    ) -> bool {
        let workload_id = self.pod_map@[pod].workload_id;
        let w = workload_id.id();
        &&& after == NamespaceStateMachine { pod_map: after.pod_map, ..self }
        &&& after.pod_map@ == self.pod_map@.remove(pod)
        &&& after.pod_map.seq() == erase(self.pod_map.seq(), pod)
        &&& out_after == out.with_commands(after.workload_update(w)).with_workload_event(
            workload_id,
            end.event,
        )
        &&& next == if self.workloads@.contains_key(w) {
            step_then_demand(workload_id, end.input)
        } else {
            seq![]
        }
    }

    /// What a worker's report changes, gives out and leaves to do.
    pub open spec fn reported(
        self,
        worker_id: WorkerId,
        event: WorkerEvent,
        placements: Map<Seq<char>, ArtifactPlacement>,
        out: OutputView,
        after: NamespaceStateMachine,
        placements_after: Map<Seq<char>, ArtifactPlacement>,
        out_after: OutputView,
        next: Seq<FollowUp>,
    ) -> bool {
        let w = worker_id.id();
        if !self.workers@.contains_key(w) {
            after == self && placements_after == placements && out_after == out && next.len() == 0
        } else if event is NamespaceFailed || (event is NamespaceDestroyed && self.status
            != NamespaceStatus::Destroying) {
            &&& self.without_pods_of(w, after)
            &&& placements_after == off_worker(placements, w)
            &&& out_after == out
            &&& next == loss_next(self.workloads.seq(), placements_after, worker_id)
        } else if event is NamespaceDestroyed {
            &&& after == NamespaceStateMachine { workers: after.workers, ..self }
            &&& after.workers@ == self.workers@.remove(w)
            &&& after.workers.seq() == erase(self.workers.seq(), w)
            &&& placements_after == placements
            &&& out_after == if after.workers.seq().len() == 0 {
                out.with_destroyed()
            } else {
                out
            }
            &&& next.len() == 0
        } else if self.status == NamespaceStatus::Destroying {
            after == self && placements_after == placements && out_after == out && next.len() == 0
        } else {
            match event {
                WorkerEvent::NamespaceCreated => {
                    &&& self.with_fabric(w, after)
                    &&& placements_after == placements
                    &&& out_after == self.fabric_out(worker_id, after, out)
                    &&& next == if self.status == NamespaceStatus::Creating && after.status
                        == NamespaceStatus::Active {
                        demand_checks(self.workloads.seq())
                    } else {
                        seq![]
                    }
                },
                WorkerEvent::ServiceBackendNeed { service_id, need } => {
                    &&& placements_after == placements
                    &&& self.service_told(
                        service_id,
                        ServiceInput::ServiceBackendNeed { need },
                        after,
                        out,
                        out_after,
                        next,
                    )
                },
                WorkerEvent::EndpointActivation { ip, service_id } => {
                    &&& placements_after == placements
                    &&& match service_id {
                        Some(s) => self.service_told(
                            s,
                            ServiceInput::ServiceActivation,
                            after,
                            out,
                            out_after,
                            next,
                        ),
                        None => out_after == out && self.flows_told(
                            self.flow_target(ip, None),
                            true,
                            after,
                            next,
                        ),
                    }
                },
                WorkerEvent::EndpointFlowStatus { ip, service_id, has_active_flows } => {
                    &&& placements_after == placements
                    &&& out_after == out
                    &&& self.flows_told(
                        self.flow_target(ip, service_id),
                        has_active_flows,
                        after,
                        next,
                    )
                },
                WorkerEvent::ArtifactWriteStarted { artifact_id, pool_id } => {
                    &&& after == self
                    &&& out_after == out
                    &&& next.len() == 0
                    &&& placements_after == placements.insert(
                        artifact_id.id(),
                        ArtifactPlacement { pool_id, worker_id, status: ArtifactStatus::Writing },
                    )
                },
                WorkerEvent::ArtifactWriteCommitted { artifact_id, .. } => {
                    &&& after == self
                    &&& out_after == out
                    &&& next.len() == 0
                    &&& placements_after == if placements.contains_key(artifact_id.id()) {
                        placements.insert(
                            artifact_id.id(),
                            ArtifactPlacement {
                                status: ArtifactStatus::Ready,
                                ..placements[artifact_id.id()]
                            },
                        )
                    } else {
                        placements
                    }
                },
                WorkerEvent::PodRunning { pod_id } => {
                    &&& after == self
                    &&& placements_after == placements
                    &&& self.running_told(pod_id, out, out_after, next)
                },
                _ => {
                    &&& placements_after == placements
                    &&& self.end_told(event, after, out, out_after, next)
                },
            }
        }
    }

    /// What the start of a pod gives out and leaves to do.
    pub open spec fn running_told(
        self,
        pod_id: PodId,
        out: OutputView,
        out_after: OutputView,
        next: Seq<FollowUp>,
    ) -> bool {
        if self.pod_map@.contains_key(pod_id.id()) {
            let info = self.pod_map@[pod_id.id()];
            &&& out_after == out.with_workload_event(
                info.workload_id,
                WorkloadEventView::PodRunning { pod_id, worker_id: info.worker_id },
            )
            &&& next == if self.workloads@.contains_key(info.workload_id.id()) {
                step_then_demand(info.workload_id, WorkloadInput::PodRunning { pod_id })
            } else {
                seq![]
            }
        } else {
            out_after == out && next.len() == 0
        }
    }

    /// What a report of a pod's end changes, gives out and leaves to do. The end of a pod that is
    /// not known is passed over.
    pub open spec fn end_told(
        self,
        event: WorkerEvent,
        after: NamespaceStateMachine,
        out: OutputView,
        out_after: OutputView,
        next: Seq<FollowUp>,
    ) -> bool {
        let pod = ended_pod(event);
        if self.pod_map@.contains_key(pod) {
            self.pod_ended(
                pod,
                pod_end(event, self.pod_map@[pod].worker_id).unwrap(),
                after,
                out,
                out_after,
                next,
            )
        } else {
            after == self && out_after == out && next.len() == 0
        }
    }

    /// Takes in what a worker reports.
    pub fn handle_worker_event(
        &mut self,
        worker_id: &WorkerId,
        event: WorkerEvent,
        placement_table: &mut PlacementTable,
        out: &mut NamespaceOutput,
    ) -> (r: Vec<FollowUp>)
        ensures
            old(self).reported(
                *worker_id,
                event,
                old(placement_table)@,
                old(out)@,
                *final(self),
                final(placement_table)@,
                final(out)@,
                r@,
            ),
    {
        if !self.workers.contains_key(worker_id) {
            return Vec::new();
        }
        let destroying: bool = self.status == NamespaceStatus::Destroying;
        match event {
            WorkerEvent::NamespaceFailed { .. } => self.handle_worker_lost(
                worker_id,
                placement_table,
            ),
            WorkerEvent::NamespaceDestroyed => {
                if destroying {
                    let _ = self.workers.remove(worker_id);
                    if self.workers.len() == 0 {
                        out.set_destroyed();
                    }
                    Vec::new()
                } else {
                    self.handle_worker_lost(worker_id, placement_table)
                }
            },
            _ if destroying => Vec::new(),
            WorkerEvent::NamespaceCreated => self.fabric_created(worker_id, out),
            WorkerEvent::ServiceBackendNeed { service_id, need } => self.tell_service(
                &service_id,
                ServiceInput::ServiceBackendNeed { need },
                out,
            ),
            WorkerEvent::PodRunning { pod_id } => self.pod_running(pod_id, out),
            WorkerEvent::PodExited { pod_id, exit_code } => {
                match self.drop_pod(&pod_id, out) {
                    Some(info) => {
                        out.workload_event(
                            info.workload_id.clone(),
                            SmWorkloadEvent::PodStopped { exit_code },
                        );
                        self.step_if_known(
                            &info.workload_id,
                            WorkloadInput::PodGone {
                                pod_id,
                                reason: PodGoneReason::Exited { exit_code },
                            },
                        )
                    },
                    None => Vec::new(),
                }
            },
            WorkerEvent::PodFailed { pod_id, error } => {
                match self.drop_pod(&pod_id, out) {
                    Some(info) => {
                        out.workload_event(
                            info.workload_id.clone(),
                            SmWorkloadEvent::PodFailed { reason: error.clone() },
                        );
                        self.step_if_known(
                            &info.workload_id,
                            WorkloadInput::PodGone {
                                pod_id,
                                reason: PodGoneReason::Failed { error },
                            },
                        )
                    },
                    None => Vec::new(),
                }
            },
            WorkerEvent::ArtifactWriteStarted { artifact_id, pool_id } => {
                placement_table.insert(
                    artifact_id,
                    ArtifactPlacement {
                        pool_id,
                        worker_id: worker_id.clone(),
                        status: ArtifactStatus::Writing,
                    },
                );
                Vec::new()
            },
            WorkerEvent::ArtifactWriteCommitted { artifact_id, .. } => {
                placement_table.mark_ready(&artifact_id);
                Vec::new()
            },
            WorkerEvent::PodSuspended { pod_id, artifact_id, .. } => {
                match self.drop_pod(&pod_id, out) {
                    Some(info) => {
                        out.workload_event(
                            info.workload_id.clone(),
                            SmWorkloadEvent::PodSuspended {
                                worker_id: info.worker_id.clone(),
                                artifact_id: artifact_id.clone(),
                            },
                        );
                        self.step_if_known(
                            &info.workload_id,
                            WorkloadInput::PodSuspended { pod_id, artifact_id },
                        )
                    },
                    None => Vec::new(),
                }
            },
            WorkerEvent::EndpointActivation { ip, service_id } => {
                match service_id {
                    Some(service_id) => self.tell_service(
                        &service_id,
                        ServiceInput::ServiceActivation,
                        out,
                    ),
                    None => {
                        let target = self.workload_with_ip(ip);
                        self.set_flows(target, true)
                    },
                }
            },
            WorkerEvent::EndpointFlowStatus { ip, service_id, has_active_flows } => {
                let target: Option<WorkloadId> = match service_id {
                    Some(service_id) => match self.service_workload.get(&service_id) {
                        Some(w) => Some(w.clone()),
                        None => None,
                    },
                    None => self.workload_with_ip(ip),
                };
                self.set_flows(target, has_active_flows)
            },
            WorkerEvent::PodSuspendFailed { pod_id, error } => {
                match self.drop_pod(&pod_id, out) {
                    Some(info) => {
                        out.workload_event(
                            info.workload_id.clone(),
                            SmWorkloadEvent::PodSuspendFailed { reason: error },
                        );
                        self.step_if_known(
                            &info.workload_id,
                            WorkloadInput::PodSuspendFailed { pod_id },
                        )
                    },
                    None => Vec::new(),
                }
            },
        }
    }

    fn fabric_created(&mut self, worker_id: &WorkerId, out: &mut NamespaceOutput) -> (r: Vec<
        FollowUp,
    >)
        requires
            old(self).workers@.contains_key(worker_id.id()),
            old(self).status != NamespaceStatus::Destroying,
        ensures
            old(self).with_fabric(worker_id.id(), *final(self)),
            final(out)@ == old(self).fabric_out(*worker_id, *final(self), old(out)@),
            r@ == (if old(self).status == NamespaceStatus::Creating && final(self).status
                == NamespaceStatus::Active {
                demand_checks(old(self).workloads.seq())
            } else {
                seq![]
            }),
    {
        let ghost before = *self;
        let ghost w = worker_id.id();
        let ghost s = self.workers.seq();
        let change = |ws: NamespaceWorkerState| -> (r: (NamespaceWorkerState, ()))
            ensures
                r.0 == (if ws.fabric_status == FabricStatus::Creating {
                    NamespaceWorkerState { fabric_status: FabricStatus::Active, ..ws }
                } else {
                    ws
                }),
            {
                let mut ws: NamespaceWorkerState = ws;
                if ws.fabric_status == FabricStatus::Creating {
                    ws.fabric_status = FabricStatus::Active;
                }
                (ws, ())
            };
        let _ = self.workers.modify(worker_id, change);
        proof {
            let p = position(s, w);
            assert(before.workers@[w] == s[p].1);
            if s[p].1.fabric_status != FabricStatus::Creating {
                assert(self.workers.seq() =~= s);
            }
        }
        if self.status == NamespaceStatus::Creating {
            if self.has_active_worker() {
                self.status = NamespaceStatus::Active;
                self.emit_registry_sync(out);
                self.emit_endpoint_sync(out);
                return self.reconcile_all_services();
            }
        } else {
            self.emit_registry_sync_to_worker(worker_id, out);
            self.emit_endpoint_sync_to_worker(worker_id, out);
        }
        Vec::new()
    }

    fn has_active_worker(&self) -> (r: bool)
        ensures
            r == any_active(self.workers.seq()),
    {
        let n: usize = self.workers.len();
        let mut i: usize = 0;
        while i < n
            invariant
                n == self.workers.seq().len(),
                i <= n,
                forall|j: int|
                    0 <= j < i ==> (#[trigger] self.workers.seq()[j]).1.fabric_status
                        != FabricStatus::Active,
            decreases n - i,
        {
            if self.workers.value_at(i).fabric_status == FabricStatus::Active {
                assert(self.workers.seq()[i as int].1.fabric_status == FabricStatus::Active);
                return true;
            }
            i = i + 1;
        }
        false
    }

    fn tell_service(
        &mut self,
        service_id: &ServiceId,
        input: ServiceInput,
        out: &mut NamespaceOutput,
    ) -> (r: Vec<FollowUp>)
        ensures
            old(self).service_told(*service_id, input, *final(self), old(out)@, final(out)@, r@),
    {
        let workload_id: WorkloadId = match self.services.get(service_id) {
            Some(svc) => svc.workload_id.clone(),
            None => {
                return Vec::new();
            },
        };
        self.step_service(service_id, input, out);
        only_demand(&workload_id)
    }

    fn pod_running(&self, pod_id: PodId, out: &mut NamespaceOutput) -> (r: Vec<FollowUp>)
        ensures
            self.running_told(pod_id, old(out)@, final(out)@, r@),
    {
        match self.pod_map.get(&pod_id) {
            Some(info) => {
                out.workload_event(
                    info.workload_id.clone(),
                    SmWorkloadEvent::PodRunning {
                        pod_id: pod_id.clone(),
                        worker_id: info.worker_id.clone(),
                    },
                );
                self.step_if_known(&info.workload_id, WorkloadInput::PodRunning { pod_id })
            },
            None => Vec::new(),
        }
    }

    /// Forgets a pod and renews the endpoint of its workload.
    fn drop_pod(&mut self, pod_id: &PodId, out: &mut NamespaceOutput) -> (r: Option<PodInfo>)
        ensures
            match r {
                Some(info) => {
                    &&& old(self).pod_map@.contains_key(pod_id.id())
                    &&& info == old(self).pod_map@[pod_id.id()]
                    &&& *final(self) == (NamespaceStateMachine {
                        pod_map: final(self).pod_map,
                        ..*old(self)
                    })
                    &&& final(self).pod_map@ == old(self).pod_map@.remove(pod_id.id())
                    &&& final(self).pod_map.seq() == erase(old(self).pod_map.seq(), pod_id.id())
                    &&& final(out)@ == old(out)@.with_commands(
                        final(self).workload_update(info.workload_id.id()),
                    )
                },
                None => {
                    &&& !old(self).pod_map@.contains_key(pod_id.id())
                    &&& *final(self) == *old(self)
                    &&& final(out)@ == old(out)@
                },
            },
    {
        match self.pod_map.remove(pod_id) {
            Some(info) => {
                self.emit_endpoint_update_for_workload(&info.workload_id, out);
                Some(info)
            },
            None => None,
        }
    }

    fn step_if_known(&self, workload_id: &WorkloadId, input: WorkloadInput) -> (r: Vec<FollowUp>)
        ensures
            r@ == (if self.workloads@.contains_key(workload_id.id()) {
                step_then_demand(*workload_id, input)
            } else {
                seq![]
            }),
    {
        if self.workloads.contains_key(workload_id) {
            then_demand(workload_id, input)
        } else {
            Vec::new()
        }
    }

    /// The first workload, in name order, that has an address.
    fn workload_with_ip(&self, ip: u32) -> (r: Option<WorkloadId>)
        ensures
            r == workload_at(self.spec.workloads.seq(), ip),
    {
        let n: usize = self.spec.workloads.len();
        let ghost s = self.spec.workloads.seq();
        let mut i: usize = 0;
        assert(s.skip(0) =~= s);
        while i < n
            invariant
                n == s.len(),
                s == self.spec.workloads.seq(),
                i <= n,
                workload_at(s, ip) == workload_at(s.skip(i as int), ip),
            decreases n - i,
        {
            assert(s.skip(i as int).drop_first() =~= s.skip(i + 1));
            assert(s.skip(i as int)[0] == s[i as int]);
            if self.spec.workloads.value_at(i).network.ip == ip {
                return Some(self.spec.workloads.key_at(i).clone());
            }
            i = i + 1;
        }
        None
    }

    fn set_flows(&mut self, target: Option<WorkloadId>, has_active_flows: bool) -> (r: Vec<
        FollowUp,
    >)
        ensures
            old(self).flows_told(target, has_active_flows, *final(self), r@),
    {
        match target {
            Some(workload_id) => {
                if has_active_flows {
                    self.active_flows.insert(workload_id.clone(), ());
                } else {
                    let _ = self.active_flows.remove(&workload_id);
                }
                only_demand(&workload_id)
            },
            None => Vec::new(),
        }
    }

    /// Forgets the pods and snapshots of a lost worker. The workloads that it concerns learn of it
    /// before the worker goes off the list.
    pub fn handle_worker_lost(
        &mut self,
        worker_id: &WorkerId,
        placement_table: &mut PlacementTable,
    ) -> (r: Vec<FollowUp>)
        ensures
            old(self).without_pods_of(worker_id.id(), *final(self)),
            final(placement_table)@ == off_worker(old(placement_table)@, worker_id.id()),
            r@ == loss_next(old(self).workloads.seq(), final(placement_table)@, *worker_id),
    {
        placement_table.remove_by_worker(worker_id);
        let _ = self.pod_map.remove_worker_pods(worker_id);
        let ghost s = self.workloads.seq();
        let ghost w = worker_id.id();
        let ghost p = placement_table@;
        let n: usize = self.workloads.len();
        let mut list: Vec<WorkloadId> = Vec::new();
        let mut i: usize = 0;
        assert(s.take(0) =~= Seq::<(WorkloadId, Workload)>::empty());
        while i < n
            invariant
                n == s.len(),
                s == self.workloads.seq(),
                w == worker_id.id(),
                i <= n,
                list@ == hosted(s.take(i as int), w),
            decreases n - i,
        {
            assert(s.take(i + 1).drop_last() =~= s.take(i as int));
            assert(s.take(i + 1).last() == s[i as int]);
            if let Some(host) = self.workloads.value_at(i).status.state.worker_id() {
                if host.same(worker_id) {
                    list.push(self.workloads.key_at(i).clone());
                }
            }
            i = i + 1;
        }
        assert(s.take(i as int) =~= s);
        let ghost first = hosted(s, w);
        let mut i: usize = 0;
        assert(s.take(0) =~= Seq::<(WorkloadId, Workload)>::empty());
        assert(list@ =~= first + stale(s.take(0), p));
        while i < n
            invariant
                n == s.len(),
                s == self.workloads.seq(),
                p == placement_table@,
                i <= n,
                list@ == first + stale(s.take(i as int), p),
            decreases n - i,
        {
            assert(s.take(i + 1).drop_last() =~= s.take(i as int));
            assert(s.take(i + 1).last() == s[i as int]);
            if let Some(artifact_id) = self.workloads.value_at(
                i,
            ).status.state.suspended_artifact_id() {
                if placement_table.get(artifact_id).is_none() {
                    list.push(self.workloads.key_at(i).clone());
                    assert(list@ =~= first + stale(s.take(i + 1), p));
                }
            }
            i = i + 1;
        }
        assert(s.take(i as int) =~= s);
        let ghost second = stale(s, p);
        let mut i: usize = 0;
        assert(s.take(0) =~= Seq::<(WorkloadId, Workload)>::empty());
        assert(list@ =~= first + second + retiring_on(s.take(0), w));
        while i < n
            invariant
                n == s.len(),
                s == self.workloads.seq(),
                w == worker_id.id(),
                i <= n,
                list@ == first + second + retiring_on(s.take(i as int), w),
            decreases n - i,
        {
            assert(s.take(i + 1).drop_last() =~= s.take(i as int));
            assert(s.take(i + 1).last() == s[i as int]);
            if retires(&self.workloads.value_at(i).status.retiring, worker_id) {
                list.push(self.workloads.key_at(i).clone());
                assert(list@ =~= first + second + retiring_on(s.take(i + 1), w));
            }
            i = i + 1;
        }
        assert(s.take(i as int) =~= s);
        let mut seen: Vec<WorkloadId> = Vec::new();
        let mut next: Vec<FollowUp> = Vec::new();
        let mut i: usize = 0;
        assert(list@.take(0) =~= Seq::<WorkloadId>::empty());
        while i < list.len()
            invariant
                i <= list@.len(),
                seen@ == unique(list@.take(i as int)),
                next@ == loss_told(seen@, *worker_id),
            decreases list@.len() - i,
        {
            assert(list@.take(i + 1).drop_last() =~= list@.take(i as int));
            assert(list@.take(i + 1).last() == list@[i as int]);
            if !listed(&seen, &list[i]) {
                let ghost earlier = seen@;
                seen.push(list[i].clone());
                assert(seen@.drop_last() =~= earlier);
                let mut more = then_demand(
                    &list[i],
                    WorkloadInput::WorkerLost { worker_id: worker_id.clone() },
                );
                next.append(&mut more);
            }
            i = i + 1;
        }
        assert(list@.take(i as int) =~= list@);
        next.push(FollowUp::DropWorker { worker_id: worker_id.clone() });
        next
    }

    /// Takes a lost worker off the list. Without workers an active namespace waits for one again;
    /// one on its way out is done.
    pub fn drop_worker(&mut self, worker_id: &WorkerId, out: &mut NamespaceOutput) -> (r: Vec<
        FollowUp,
    >)
        ensures
            *final(self) == (NamespaceStateMachine {
                workers: final(self).workers,
                status: final(self).status,
                ..*old(self)
            }),
            final(self).workers@ == old(self).workers@.remove(worker_id.id()),
            final(self).workers.seq() == erase(old(self).workers.seq(), worker_id.id()),
            final(self).status == (if old(self).status == NamespaceStatus::Active && final(self).workers.seq().len() == 0 {
                NamespaceStatus::Creating
            } else {
                old(self).status
            }),
            final(out)@ == (if old(self).status == NamespaceStatus::Destroying && final(self).workers.seq().len() == 0 {
                old(out)@.with_destroyed()
            } else {
                old(out)@
            }),
            r@ == (if final(self).status == NamespaceStatus::Active {
                demand_checks(old(self).workloads.seq())
            } else {
                seq![]
            }),
    {
        let _ = self.workers.remove(worker_id);
        let gone: bool = self.workers.len() == 0;
        if self.status == NamespaceStatus::Destroying {
            if gone {
                out.set_destroyed();
            }
            Vec::new()
        } else if gone && self.status == NamespaceStatus::Active {
            self.status = NamespaceStatus::Creating;
            Vec::new()
        } else if self.status == NamespaceStatus::Active {
            self.reconcile_all_services()
        } else {
            Vec::new()
        }
    }

    /// What a timer that went off changes, gives out and leaves to do.
    pub open spec fn timer_told(
        self,
        timer_key: TimerKey,
        after: NamespaceStateMachine,
        out: OutputView,
        out_after: OutputView,
        next: Seq<FollowUp>,
    ) -> bool {
        match timer_key {
            TimerKey::IdleTimeout { service_id } => self.service_told(
                service_id,
                ServiceInput::TimerFired { timer_key },
                after,
                out,
                out_after,
                next,
            ),
            _ => {
                let workload_id = timed_workload(timer_key);
                &&& after == self
                &&& out_after == out
                &&& next == if self.workloads@.contains_key(workload_id.id()) {
                    step_then_demand(workload_id, WorkloadInput::TimerFired { timer_key })
                } else {
                    seq![]
                }
            },
        }
    }

    /// Passes a timer that went off on to its service or workload. A pod stays until its worker
    /// confirms that it is gone.
    pub fn handle_timer_fired(&mut self, timer_key: &TimerKey, out: &mut NamespaceOutput) -> (r: Vec<
        FollowUp,
    >)
        ensures
            old(self).timer_told(*timer_key, *final(self), old(out)@, final(out)@, r@),
    {
        let workload_id: &WorkloadId = match timer_key {
            TimerKey::IdleTimeout { service_id } => {
                return self.tell_service(
                    service_id,
                    ServiceInput::TimerFired { timer_key: timer_key.clone() },
                    out,
                );
            },
            TimerKey::LaunchTimeout { workload_id, .. } => workload_id,
            TimerKey::SuspendTimeout { workload_id, .. } => workload_id,
            TimerKey::ResumeTimeout { workload_id, .. } => workload_id,
            TimerKey::RetryBackoffTimeout { workload_id } => workload_id,
        };
        self.step_if_known(workload_id, WorkloadInput::TimerFired { timer_key: timer_key.clone() })
    }
}

/// The pod whose end an event reports.
pub open spec fn ended_pod(event: WorkerEvent) -> Seq<char> {
    match event {
        WorkerEvent::PodExited { pod_id, .. } => pod_id.id(),
        WorkerEvent::PodFailed { pod_id, .. } => pod_id.id(),
        WorkerEvent::PodSuspended { pod_id, .. } => pod_id.id(),
        WorkerEvent::PodSuspendFailed { pod_id, .. } => pod_id.id(),
        _ => seq![],
    }
}

/// The workload that a timer belongs to.
pub open spec fn timed_workload(timer_key: TimerKey) -> WorkloadId {
    match timer_key {
        TimerKey::LaunchTimeout { workload_id, .. } => workload_id,
        TimerKey::SuspendTimeout { workload_id, .. } => workload_id,
        TimerKey::ResumeTimeout { workload_id, .. } => workload_id,
        TimerKey::RetryBackoffTimeout { workload_id } => workload_id,
        TimerKey::IdleTimeout { .. } => arbitrary(),
    }
}

fn retires(retiring: &Vec<RetiringPod>, worker_id: &WorkerId) -> (r: bool)
    ensures
        r == retires_on(retiring@, worker_id.id()),
{
    let mut i: usize = 0;
    while i < retiring.len()
        invariant
            i <= retiring@.len(),
            forall|j: int|
                0 <= j < i ==> (#[trigger] retiring@[j]).worker_id.id() != worker_id.id(),
        decreases retiring@.len() - i,
    {
        if retiring[i].worker_id.same(worker_id) {
            return true;
        }
        i = i + 1;
    }
    false
}

fn listed(list: &Vec<WorkloadId>, workload_id: &WorkloadId) -> (r: bool)
    ensures
        r == lists(list@, workload_id.id()),
{
    let mut i: usize = 0;
    while i < list.len()
        invariant
            i <= list@.len(),
            forall|j: int| 0 <= j < i ==> (#[trigger] list@[j]).id() != workload_id.id(),
        decreases list@.len() - i,
    {
        if list[i].same(workload_id) {
            return true;
        }
        i = i + 1;
    }
    false
}

/// `unique` keeps what is listed, each workload once.
pub proof fn law_unique(list: Seq<WorkloadId>, workload: Seq<char>)
    ensures
        lists(unique(list), workload) == lists(list, workload),
        forall|i: int, j: int|
            0 <= i < j < unique(list).len() ==> (#[trigger] unique(list)[i]).id() != (
            #[trigger] unique(list)[j]).id(),
    decreases list.len(),
{
    if list.len() > 0 {
        let front = list.drop_last();
        law_unique(front, workload);
        law_unique(front, list.last().id());
        let rest = unique(front);
        let all = unique(list);
        if lists(rest, workload) {
            let i = choose|i: int| 0 <= i < rest.len() && (#[trigger] rest[i]).id() == workload;
            assert(all[i].id() == workload);
        }
        if lists(front, workload) {
            let i = choose|i: int| 0 <= i < front.len() && (#[trigger] front[i]).id() == workload;
            assert(list[i].id() == workload);
        }
        if lists(list, workload) && !lists(front, workload) {
            let i = choose|i: int| 0 <= i < list.len() && (#[trigger] list[i]).id() == workload;
            if i < front.len() {
                assert(front[i].id() == workload);
            }
            assert(list.last().id() == workload);
            assert(all[rest.len() as int].id() == workload);
        }
        if lists(all, workload) && !lists(rest, workload) {
            let i = choose|i: int| 0 <= i < all.len() && (#[trigger] all[i]).id() == workload;
            if i < rest.len() {
                assert(rest[i].id() == workload);
            }
            assert(list[list.len() - 1].id() == workload);
        }
        assert forall|i: int, j: int| 0 <= i < j < all.len() implies (#[trigger] all[i]).id() != (
        #[trigger] all[j]).id() by {
            if j < rest.len() {
                assert(rest[i].id() != rest[j].id());
            } else {
                assert(all[i] == rest[i]);
            }
        }
    }
}

/// Every workload that a lost worker hosts learns of the loss, exactly once.
pub proof fn law_loss_reaches_hosted(
    workloads: Seq<(WorkloadId, Workload)>,
    placements: Map<Seq<char>, ArtifactPlacement>,
    worker: Seq<char>,
    i: int,
)
    requires
        0 <= i < workloads.len(),
        workloads[i].1.status.state.worker() matches Some(w) && w.id() == worker,
    ensures
        lists(concerned(workloads, placements, worker), workloads[i].0.id()),
{
    lemma_hosted(workloads, worker, i);
    let all = hosted(workloads, worker) + stale(workloads, placements) + retiring_on(
        workloads,
        worker,
    );
    let h = hosted(workloads, worker);
    let k = choose|k: int| 0 <= k < h.len() && (#[trigger] h[k]).id() == workloads[i].0.id();
    assert(all[k].id() == workloads[i].0.id());
    law_unique(all, workloads[i].0.id());
}

proof fn lemma_hosted(workloads: Seq<(WorkloadId, Workload)>, worker: Seq<char>, i: int)
    requires
        0 <= i < workloads.len(),
        workloads[i].1.status.state.worker() matches Some(w) && w.id() == worker,
    ensures
        lists(hosted(workloads, worker), workloads[i].0.id()),
    decreases workloads.len(),
{
    let all = hosted(workloads, worker);
    let rest = hosted(workloads.drop_last(), worker);
    if i < workloads.len() - 1 {
        lemma_hosted(workloads.drop_last(), worker, i);
        let k = choose|k: int|
            0 <= k < rest.len() && (#[trigger] rest[k]).id() == workloads[i].0.id();
        assert(all[k].id() == workloads[i].0.id());
    } else {
        assert(all[rest.len() as int].id() == workloads[i].0.id());
    }
}

} // verus!
