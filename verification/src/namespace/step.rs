//! One input at a time, and the follow-ups that it leaves.
use vstd::prelude::*;

use crate::ids::{ArtifactId, ClientId, PodId, PoolId, ServiceId, WorkerId, WorkloadId};
use crate::namespace::events::{loss_next, WorkerEvent};
use crate::namespace::{demand_checks, FollowUp, NamespaceStateMachine};
use crate::output::{ClientEvent, ClientEventView, NamespaceOutput, OutputView};
use crate::placement::{off_worker, ArtifactPlacement, PlacementTable};
use crate::pod_map::PodInfo;
use crate::sorted_map::{erase, Key};
use crate::types::{NamespaceSpec, NamespaceStatus, TimerKey};
use crate::workload::WorkloadInput;

verus! {

/// What a namespace takes in.
pub enum NamespaceInput {
    WorkerEvent { worker_id: WorkerId, event: WorkerEvent },
    WorkerLost { worker_id: WorkerId },
    TimerFired { timer_key: TimerKey },
    UpdateSpec { client_id: ClientId, spec: NamespaceSpec },
    Delete { client_id: ClientId },
    GetStatus { client_id: ClientId },
    Splice { client_id: ClientId, workload_id: WorkloadId, worker_id: WorkerId },
    Unsplice { client_id: ClientId, workload_id: WorkloadId },
    StreamLogs { client_id: ClientId, service_id: ServiceId },
    LaunchPod { workload_id: WorkloadId, worker_id: WorkerId, pod_id: PodId },
    ResumePod {
        workload_id: WorkloadId,
        worker_id: WorkerId,
        pod_id: PodId,
        artifact_id: ArtifactId,
        pool_id: PoolId,
    },
    Connect {
        client_id: ClientId,
        client_public_key: [u8; 32],
        worker_wg_public_key: [u8; 32],
        worker_endpoint: String,
    },
    Disconnect { client_id: ClientId, client_public_key: [u8; 32] },
    DeactivateWorkload { client_id: ClientId, workload_id: WorkloadId },
}

/// An answer of one line.
pub open spec fn refused(client_id: ClientId, message: Seq<char>) -> OutputView {
    OutputView::nothing().with_client_event(client_id, ClientEventView::Error { message })
}

impl NamespaceStateMachine {
    /// `after` is `self` with a new pod.
    pub open spec fn with_pod(
        self,
        pod_id: PodId,
        workload_id: WorkloadId,
        worker_id: WorkerId,
        after: NamespaceStateMachine,
    ) -> bool {
        &&& after == NamespaceStateMachine { pod_map: after.pod_map, ..self }
        &&& after.pod_map@ == self.pod_map@.insert(pod_id.id(), PodInfo { workload_id, worker_id })
    }

    /// What an input changes, gives out and leaves to do.
    pub open spec fn takes(
        self,
        input: NamespaceInput,
        placements: Map<Seq<char>, ArtifactPlacement>,
        after: NamespaceStateMachine,
        placements_after: Map<Seq<char>, ArtifactPlacement>,
        out: OutputView,
        next: Seq<FollowUp>,
    ) -> bool {
        let nothing = OutputView::nothing();
        match input {
            NamespaceInput::WorkerEvent { worker_id, event } => self.reported(
                worker_id,
                event,
                placements,
                nothing,
                after,
                placements_after,
                out,
                next,
            ),
            NamespaceInput::WorkerLost { worker_id } => {
                &&& self.without_pods_of(worker_id.id(), after)
                &&& placements_after == off_worker(placements, worker_id.id())
                &&& out == nothing
                &&& next == loss_next(self.workloads.seq(), placements_after, worker_id)
            },
            NamespaceInput::TimerFired { timer_key } => {
                &&& placements_after == placements
                &&& self.timer_told(timer_key, after, nothing, out, next)
            },
            NamespaceInput::UpdateSpec { client_id, spec } => {
                &&& placements_after == placements
                &&& if self.status == NamespaceStatus::Destroying {
                    &&& after == self
                    &&& out == refused(client_id, "namespace is being destroyed"@)
                    &&& next.len() == 0
                } else {
                    &&& self.respecified(spec, after)
                    &&& out == self.respecified_out(client_id, spec, after, nothing)
                    &&& next == if self.status == NamespaceStatus::Active {
                        demand_checks(after.workloads.seq())
                    } else {
                        seq![]
                    }
                }
            },
            NamespaceInput::Delete { client_id } => {
                &&& placements_after == placements
                &&& self.dissolved(after)
                &&& out == self.dissolved_out(client_id, nothing)
                &&& next.len() == 0
            },
            NamespaceInput::GetStatus { client_id } => {
                &&& placements_after == placements
                &&& after == self
                &&& out == nothing.with_client_event(
                    client_id,
                    ClientEventView::NamespaceStatus {
                        namespace_id: self.namespace_id,
                        status: self.report(),
                    },
                )
                &&& next.len() == 0
            },
            NamespaceInput::Splice { client_id, .. } => {
                &&& placements_after == placements
                &&& after == self
                &&& out == refused(client_id, "Splice not yet implemented"@)
                &&& next.len() == 0
            },
            NamespaceInput::Unsplice { client_id, .. } => {
                &&& placements_after == placements
                &&& after == self
                &&& out == refused(client_id, "Unsplice not yet implemented"@)
                &&& next.len() == 0
            },
            NamespaceInput::StreamLogs { client_id, .. } => {
                &&& placements_after == placements
                &&& after == self
                &&& out == refused(client_id, "StreamLogs not yet implemented"@)
                &&& next.len() == 0
            },
            NamespaceInput::LaunchPod { workload_id, worker_id, pod_id } => {
                &&& placements_after == placements
                &&& if self.can_launch(workload_id.id(), worker_id.id()) {
                    &&& self.with_pod(pod_id, workload_id, worker_id, after)
                    &&& out == self.launch_out(workload_id, worker_id, pod_id, nothing)
                    &&& next == seq![
                        FollowUp::StepWorkload {
                            workload_id,
                            input: WorkloadInput::LaunchPod { worker_id, pod_id },
                            retry: false,
                        },
                    ]
                } else {
                    after == self && out == nothing && next.len() == 0
                }
            },
            NamespaceInput::ResumePod { workload_id, worker_id, pod_id, artifact_id, pool_id } => {
                &&& placements_after == placements
                &&& if self.can_resume(workload_id.id(), worker_id.id()) {
                    &&& self.with_pod(pod_id, workload_id, worker_id, after)
                    &&& out == self.resume_out(
                        workload_id,
                        worker_id,
                        pod_id,
                        artifact_id,
                        pool_id,
                        nothing,
                    )
                    &&& next == seq![
                        FollowUp::StepWorkload {
                            workload_id,
                            input: WorkloadInput::ResumePod {
                                worker_id,
                                pod_id,
                                artifact_id,
                                pool_id,
                            },
                            retry: false,
                        },
                    ]
                } else {
                    after == self && out == nothing && next.len() == 0
                }
            },
            NamespaceInput::Connect {
                client_id,
                client_public_key,
                worker_wg_public_key,
                worker_endpoint,
            } => {
                &&& placements_after == placements
                &&& after == self
                &&& if self.status == NamespaceStatus::Active {
                    out == nothing && next == seq![
                        FollowUp::ConnectPeer {
                            client_id,
                            client_public_key,
                            worker_wg_public_key,
                            worker_endpoint,
                        },
                    ]
                } else {
                    out == refused(client_id, "namespace is not active"@) && next.len() == 0
                }
            },
            NamespaceInput::Disconnect { client_id, client_public_key } => {
                &&& placements_after == placements
                &&& after == self
                &&& out == nothing
                &&& next == seq![FollowUp::DisconnectPeer { client_id, client_public_key }]
            },
            NamespaceInput::DeactivateWorkload { client_id, workload_id } => {
                let n = self.services.seq().len() as int;
                let w = workload_id.id();
                &&& placements_after == placements
                &&& if self.sleep_refused(w) {
                    &&& after == self
                    &&& out == nothing.with_client_event(client_id, self.sleep_answer(workload_id))
                    &&& next.len() == 0
                } else {
                    &&& self.asleep(n, w, after)
                    &&& out == self.sleep_out(self.services.seq(), w, nothing).with_client_event(
                        client_id,
                        self.sleep_answer(workload_id),
                    )
                    &&& next == if self.any_awake(n, w) {
                        seq![FollowUp::ReconcileDemand { workload_id }]
                    } else {
                        seq![]
                    }
                }
            },
        }
    }

    /// An input can be taken: a pod that it starts is new, and its netmask can be written.
    pub open spec fn can_take(self, input: NamespaceInput) -> bool {
        match input {
            NamespaceInput::LaunchPod { workload_id, worker_id, pod_id } => self.can_launch(
                workload_id.id(),
                worker_id.id(),
            ) ==> self.has_room_for(pod_id),
            NamespaceInput::ResumePod { workload_id, worker_id, pod_id, .. } => self.can_resume(
                workload_id.id(),
                worker_id.id(),
            ) ==> self.has_room_for(pod_id),
            _ => true,
        }
    }

    /// Takes one input. Returns what it gives out and what is still to be done, in order.
    pub fn step(&mut self, input: NamespaceInput, placement_table: &mut PlacementTable) -> (r: (
        NamespaceOutput,
        Vec<FollowUp>,
    ))
        requires
            old(self).can_take(input),
        ensures
            old(self).takes(
                input,
                old(placement_table)@,
                *final(self),
                final(placement_table)@,
                r.0@,
                r.1@,
            ),
    {
        let mut out: NamespaceOutput = NamespaceOutput::new();
        let mut next: Vec<FollowUp> = Vec::new();
        match input {
            NamespaceInput::WorkerEvent { worker_id, event } => {
                next = self.handle_worker_event(&worker_id, event, placement_table, &mut out);
            },
            NamespaceInput::WorkerLost { worker_id } => {
                next = self.handle_worker_lost(&worker_id, placement_table);
            },
            NamespaceInput::TimerFired { timer_key } => {
                next = self.handle_timer_fired(&timer_key, &mut out);
            },
            NamespaceInput::UpdateSpec { client_id, spec } => {
                next = self.handle_update_spec(client_id, spec, &mut out);
            },
            NamespaceInput::Delete { client_id } => {
                self.handle_delete(client_id, &mut out);
            },
            NamespaceInput::GetStatus { client_id } => {
                self.handle_get_status(client_id, &mut out);
            },
            NamespaceInput::Splice { client_id, .. } => {
                out.tell(client_id, ClientEvent::error("Splice not yet implemented"));
            },
            NamespaceInput::Unsplice { client_id, .. } => {
                out.tell(client_id, ClientEvent::error("Unsplice not yet implemented"));
            },
            NamespaceInput::StreamLogs { client_id, .. } => {
                out.tell(client_id, ClientEvent::error("StreamLogs not yet implemented"));
            },
            NamespaceInput::LaunchPod { workload_id, worker_id, pod_id } => {
                next = self.handle_launch_pod(&workload_id, &worker_id, &pod_id, &mut out);
            },
            NamespaceInput::ResumePod { workload_id, worker_id, pod_id, artifact_id, pool_id } => {
                next = self.handle_resume_pod(
                    &workload_id,
                    &worker_id,
                    &pod_id,
                    &artifact_id,
                    &pool_id,
                    &mut out,
                );
            },
            NamespaceInput::Connect {
                client_id,
                client_public_key,
                worker_wg_public_key,
                worker_endpoint,
            } => {
                next = self.handle_connect(
                    client_id,
                    client_public_key,
                    worker_wg_public_key,
                    worker_endpoint,
                    &mut out,
                );
            },
            NamespaceInput::Disconnect { client_id, client_public_key } => {
                next = self.handle_disconnect(client_id, client_public_key);
            },
            NamespaceInput::DeactivateWorkload { client_id, workload_id } => {
                next = self.handle_deactivate_workload(client_id, workload_id, &mut out);
            },
        }
        (out, next)
    }
}

impl NamespaceStateMachine {
    /// What a follow-up inside the namespace changes, gives out and leaves to do.
    pub open spec fn follows(
        self,
        follow_up: FollowUp,
        after: NamespaceStateMachine,
        out: OutputView,
        out_after: OutputView,
        next: Seq<FollowUp>,
    ) -> bool {
        match follow_up {
            FollowUp::ReconcileDemand { workload_id } => {
                &&& after == self
                &&& out_after == self.demand_out(workload_id, out)
                &&& next == self.demand_next(workload_id)
            },
            FollowUp::ReconcileReadiness { workload_id } => {
                &&& next.len() == 0
                &&& match self.readiness_input(workload_id.id()) {
                    Some(input) => {
                        &&& out_after == self.readiness_out(
                            self.service_workload.seq(),
                            workload_id.id(),
                            input,
                            out,
                        )
                        &&& self.services_stepped(
                            self.service_workload.seq().len() as int,
                            workload_id.id(),
                            input,
                            after,
                        )
                    },
                    None => out_after == out && after == self,
                }
            },
            FollowUp::DropWorker { worker_id } => {
                &&& after == NamespaceStateMachine {
                    workers: after.workers,
                    status: after.status,
                    ..self
                }
                &&& after.workers@ == self.workers@.remove(worker_id.id())
                &&& after.workers.seq() == erase(self.workers.seq(), worker_id.id())
                &&& after.status == if self.status == NamespaceStatus::Active
                    && after.workers.seq().len() == 0 {
                    NamespaceStatus::Creating
                } else {
                    self.status
                }
                &&& out_after == if self.status == NamespaceStatus::Destroying
                    && after.workers.seq().len() == 0 {
                    out.with_destroyed()
                } else {
                    out
                }
                &&& next == if after.status == NamespaceStatus::Active {
                    demand_checks(self.workloads.seq())
                } else {
                    seq![]
                }
            },
            _ => after == self && out_after == out && next == seq![follow_up],
        }
    }

    /// Does a follow-up that stays inside the namespace. One that needs something from outside comes
    /// back as it is.
    pub fn perform(&mut self, follow_up: FollowUp, out: &mut NamespaceOutput) -> (r: Vec<FollowUp>)
        requires
            old(self).service_workload.seq().len() < u32::MAX,
        ensures
            old(self).follows(follow_up, *final(self), old(out)@, final(out)@, r@),
    {
        match follow_up {
            FollowUp::ReconcileDemand { workload_id } => self.reconcile_demand(&workload_id, out),
            FollowUp::ReconcileReadiness { workload_id } => {
                self.reconcile_readiness(&workload_id, out);
                Vec::new()
            },
            FollowUp::DropWorker { worker_id } => self.drop_worker(&worker_id, out),
            other => {
                let mut r: Vec<FollowUp> = Vec::new();
                r.push(other);
                assert(r@ =~= seq![follow_up]);
                r
            },
        }
    }
}

/// An input keeps the namespace's name, its segment and its clients, and only a new spec changes
/// the spec. Nothing leads back from the end of a namespace, and but for that an input only lets it
/// become active.
pub proof fn law_step_keeps_identity(
    before: NamespaceStateMachine,
    input: NamespaceInput,
    placements: Map<Seq<char>, ArtifactPlacement>,
    after: NamespaceStateMachine,
    placements_after: Map<Seq<char>, ArtifactPlacement>,
    out: OutputView,
    next: Seq<FollowUp>,
)
    requires
        before.takes(input, placements, after, placements_after, out, next),
    ensures
        after.namespace_id == before.namespace_id,
        after.segment_id == before.segment_id,
        after.wg_peers == before.wg_peers,
        !(input is UpdateSpec) ==> after.spec == before.spec,
        before.status == NamespaceStatus::Destroying ==> after.status
            == NamespaceStatus::Destroying,
        after.status != before.status ==> after.status == NamespaceStatus::Destroying || (
        before.status == NamespaceStatus::Creating && after.status == NamespaceStatus::Active),
{
}

impl NamespaceStateMachine {
    /// The tables of workloads and services hold what the spec names, and every service is tied to a
    /// workload.
    pub open spec fn tables_match(self) -> bool {
        &&& self.workloads@.dom() == self.spec.workloads@.dom()
        &&& self.services@.dom() == self.spec.services@.dom()
        &&& self.service_workload@.dom() == self.spec.services@.dom()
    }
}

/// The tables match the spec after every input if they matched it before.
pub proof fn law_step_keeps_tables(
    before: NamespaceStateMachine,
    input: NamespaceInput,
    placements: Map<Seq<char>, ArtifactPlacement>,
    after: NamespaceStateMachine,
    placements_after: Map<Seq<char>, ArtifactPlacement>,
    out: OutputView,
    next: Seq<FollowUp>,
)
    requires
        before.takes(input, placements, after, placements_after, out, next),
        before.tables_match(),
    ensures
        after.tables_match(),
{
    assert forall|s: Seq<char>|
        #![trigger after.service_workload@.dom().contains(s)]
        after.service_workload@.dom().contains(s) <==> after.spec.services@.dom().contains(s) by {
        assert(before.service_workload@.dom().contains(s) <==> before.spec.services@.dom().contains(
            s,
        ));
        assert(before.services@.dom().contains(s) <==> before.spec.services@.dom().contains(s));
        if input is UpdateSpec && before.status != NamespaceStatus::Destroying {
            assert(after.service_workload@.contains_key(s)
                == after.service_workload@.dom().contains(s));
        }
    }
    assert(after.service_workload@.dom() =~= after.spec.services@.dom());
    assert(after.services@.dom() =~= after.spec.services@.dom());
    assert(after.workloads@.dom() =~= after.spec.workloads@.dom());
}

/// The tables match the spec after every follow-up if they matched it before.
pub proof fn law_follow_ups_keep_tables(
    before: NamespaceStateMachine,
    follow_up: FollowUp,
    after: NamespaceStateMachine,
    out: OutputView,
    out_after: OutputView,
    next: Seq<FollowUp>,
)
    requires
        before.follows(follow_up, after, out, out_after, next),
        before.tables_match(),
    ensures
        after.tables_match(),
{
}

/// No input brings a worker in: a namespace gets its workers from the cluster alone.
pub proof fn law_step_brings_no_worker(
    before: NamespaceStateMachine,
    input: NamespaceInput,
    placements: Map<Seq<char>, ArtifactPlacement>,
    after: NamespaceStateMachine,
    placements_after: Map<Seq<char>, ArtifactPlacement>,
    out: OutputView,
    next: Seq<FollowUp>,
    worker: Seq<char>,
)
    requires
        before.takes(input, placements, after, placements_after, out, next),
        after.workers@.contains_key(worker),
    ensures
        before.workers@.contains_key(worker),
{
}

/// No follow-up brings a worker in.
pub proof fn law_follow_ups_bring_no_worker(
    before: NamespaceStateMachine,
    follow_up: FollowUp,
    after: NamespaceStateMachine,
    out: OutputView,
    out_after: OutputView,
    next: Seq<FollowUp>,
    worker: Seq<char>,
)
    requires
        before.follows(follow_up, after, out, out_after, next),
        after.workers@.contains_key(worker),
    ensures
        before.workers@.contains_key(worker),
{
}

} // verus!
