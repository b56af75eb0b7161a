//! From what workloads and services ask for to what the namespace does.
use vstd::prelude::*;

use crate::broadcast::send_to_active_workers;
use crate::ids::{ArtifactId, PodId, PoolId, ServiceId, WorkloadId};
use crate::namespace::{FollowUp, NamespaceStateMachine};
use crate::output::{
    EventView, NamespaceOutput, OutputView, PodRequest, ResumeRequest, SmServiceEvent,
    SmWorkloadEvent, TimerRequest, WorkloadEventView,
};
use crate::placement::{ArtifactPlacement, PlacementTable};
use crate::pod_map::PodInfo;
use crate::service::{ServiceOutput, ServiceStateMachine};
use crate::sorted_map::{as_map, erase, same_keys, upsert, Key, SortedMap};
use crate::text::{dotted, mask_of, prefix_len_to_netmask};
use crate::types::{
    clone_pool, CommandView, PodNetworkConfig, PodNetworkView, PodResourceRequirements,
    PodResourceValues, PressureBand, ResourceRequirements, ResourceValues, TimerKey, WorkerCommand,
    WorkloadSpec,
};
use crate::workload::{Workload, WorkloadInput, WorkloadOutput, WorkloadReadyInfo, WorkloadStatus};

verus! {

// ---- services -------------------------------------------------------------------------------

/// The conditions after one output of a service.
pub open spec fn service_condition(
    conditions: Seq<(String, String)>,
    output: ServiceOutput,
) -> Seq<(String, String)> {
    match output {
        ServiceOutput::ConditionSet { key, message } => upsert(conditions, key, message),
        ServiceOutput::ConditionClear { key } => erase(conditions, key.id()),
        _ => conditions,
    }
}

/// The conditions after the outputs of a service, in order.
pub open spec fn service_conditions(
    conditions: Seq<(String, String)>,
    outputs: Seq<ServiceOutput>,
) -> Seq<(String, String)>
    decreases outputs.len(),
{
    if outputs.len() == 0 {
        conditions
    } else {
        service_condition(service_conditions(conditions, outputs.drop_last()), outputs.last())
    }
}

fn apply_service_conditions(
    conditions: SortedMap<String, String>,
    outputs: &Vec<ServiceOutput>,
) -> (r: SortedMap<String, String>)
    ensures
        r.seq() == service_conditions(conditions.seq(), outputs@),
{
    let mut r: SortedMap<String, String> = conditions;
    let ghost before = r.seq();
    let ghost all = outputs@;
    let mut i: usize = 0;
    assert(all.take(0) =~= Seq::<ServiceOutput>::empty());
    while i < outputs.len()
        invariant
            i <= all.len(),
            all == outputs@,
            r.seq() == service_conditions(before, all.take(i as int)),
        decreases all.len() - i,
    {
        proof {
            assert(all.take(i + 1).drop_last() =~= all.take(i as int));
            assert(all.take(i + 1).last() == all[i as int]);
        }
        match &outputs[i] {
            ServiceOutput::ConditionSet { key, message } => {
                r.insert(key.clone(), message.clone());
            },
            ServiceOutput::ConditionClear { key } => {
                let _ = r.remove(key);
            },
            _ => {},
        }
        i = i + 1;
    }
    assert(all.take(all.len() as int) =~= all);
    r
}

impl NamespaceStateMachine {
    /// The pressure of the worker that serves a service that stands as `svc` says.
    pub open spec fn idle_band(self, svc: Option<ServiceStateMachine>) -> PressureBand {
        match svc {
            Some(svc) => match svc.serving_worker() {
                Some(w) => if self.workers@.contains_key(w.id()) {
                    self.workers@[w.id()].pressure_band
                } else {
                    PressureBand::Normal
                },
                None => PressureBand::Normal,
            },
            None => PressureBand::Normal,
        }
    }

    /// The timer that a service asks for: an idle timer carries the pressure of its host.
    pub open spec fn service_timer(
        self,
        svc: Option<ServiceStateMachine>,
        key: TimerKey,
        duration_ms: u64,
    ) -> TimerRequest {
        TimerRequest {
            key,
            duration_ms,
            band: if key is IdleTimeout {
                self.idle_band(svc)
            } else {
                PressureBand::Normal
            },
        }
    }

    /// The timer that a service asks for.
    pub fn pressure_adjusted_idle_timeout(
        &self,
        service_id: &ServiceId,
        key: TimerKey,
        configured_ms: u64,
    ) -> (r: TimerRequest)
        ensures
            r == self.service_timer(self.service(service_id.id()), key, configured_ms),
    {
        let mut band: PressureBand = PressureBand::Normal;
        if let TimerKey::IdleTimeout { .. } = &key {
            if let Some(svc) = self.services.get(service_id) {
                if let Some(worker_id) = svc.active_worker_id() {
                    if let Some(state) = self.workers.get(worker_id) {
                        band = state.pressure_band;
                    }
                }
            }
        }
        TimerRequest { key, duration_ms: configured_ms, band }
    }

    /// What is given out for an event of a service that is there.
    pub open spec fn observed(
        self,
        svc: Option<ServiceStateMachine>,
        service_id: ServiceId,
        event: SmServiceEvent,
        out: OutputView,
    ) -> OutputView {
        match svc {
            Some(svc) => out.with_event(
                EventView::Service { service_id, workload_id: svc.workload_id, event },
            ),
            None => out,
        }
    }

    fn observe(&self, service_id: &ServiceId, event: SmServiceEvent, out: &mut NamespaceOutput)
        ensures
            final(out)@ == self.observed(
                self.service(service_id.id()),
                *service_id,
                event,
                old(out)@,
            ),
    {
        if let Some(svc) = self.services.get(service_id) {
            out.service_event(service_id.clone(), svc.workload_id.clone(), event);
        }
    }

    /// What is given out for one output of a service.
    pub open spec fn service_effect(
        self,
        svc: Option<ServiceStateMachine>,
        service_id: ServiceId,
        output: ServiceOutput,
        out: OutputView,
    ) -> OutputView {
        match output {
            ServiceOutput::DemandUp => out,
            ServiceOutput::DemandDown => out,
            ServiceOutput::WorkerCommand(worker_id, command) => out.with_command(
                worker_id,
                command@,
            ),
            ServiceOutput::BroadcastWorkerCommand(command) => out.with_commands(
                self.broadcast(command@),
            ),
            ServiceOutput::TimerSet(key, duration_ms) => out.with_timer(
                self.service_timer(svc, key, duration_ms),
            ),
            ServiceOutput::TimerCancel(key) => out.with_cancel(key),
            ServiceOutput::EndpointChanged => out.with_commands(
                self.service_update(service_id, svc),
            ),
            ServiceOutput::ConditionSet { .. } => out,
            ServiceOutput::ConditionClear { .. } => out,
            ServiceOutput::IdleTimerStarted { timeout_ms } => self.observed(
                svc,
                service_id,
                SmServiceEvent::IdleTimerStarted { timeout_ms },
                out,
            ),
            ServiceOutput::IdleTimerCancelled { reason } => self.observed(
                svc,
                service_id,
                SmServiceEvent::IdleTimerCancelled { reason },
                out,
            ),
            ServiceOutput::IdleTimeoutFired => self.observed(
                svc,
                service_id,
                SmServiceEvent::IdleTimeoutFired,
                out,
            ),
            ServiceOutput::Deactivated { reason } => self.observed(
                svc,
                service_id,
                SmServiceEvent::Deactivated { reason },
                out,
            ),
            ServiceOutput::Activated { trigger } => self.observed(
                svc,
                service_id,
                SmServiceEvent::Activated { trigger },
                out,
            ),
            ServiceOutput::BackendReady => self.observed(
                svc,
                service_id,
                SmServiceEvent::BackendReady,
                out,
            ),
        }
    }

    /// What is given out for the outputs of a service that stands as `svc` says, in order.
    pub open spec fn service_effects(
        self,
        svc: Option<ServiceStateMachine>,
        service_id: ServiceId,
        outputs: Seq<ServiceOutput>,
        out: OutputView,
    ) -> OutputView
        decreases outputs.len(),
    {
        if outputs.len() == 0 {
            out
        } else {
            self.service_effect(
                svc,
                service_id,
                outputs.last(),
                self.service_effects(svc, service_id, outputs.drop_last(), out),
            )
        }
    }

    fn give_out_service_effects(
        &self,
        service_id: &ServiceId,
        outputs: &Vec<ServiceOutput>,
        out: &mut NamespaceOutput,
    )
        ensures
            final(out)@ == self.service_effects(
                self.service(service_id.id()),
                *service_id,
                outputs@,
                old(out)@,
            ),
    {
        let ghost all = outputs@;
        let mut i: usize = 0;
        assert(all.take(0) =~= Seq::<ServiceOutput>::empty());
        while i < outputs.len()
            invariant
                i <= all.len(),
                all == outputs@,
                out@ == self.service_effects(
                    self.service(service_id.id()),
                    *service_id,
                    all.take(i as int),
                    old(out)@,
                ),
            decreases all.len() - i,
        {
            proof {
                assert(all.take(i + 1).drop_last() =~= all.take(i as int));
                assert(all.take(i + 1).last() == all[i as int]);
            }
            match &outputs[i] {
                ServiceOutput::DemandUp | ServiceOutput::DemandDown => {},
                ServiceOutput::WorkerCommand(worker_id, command) => {
                    out.command(worker_id.clone(), command.clone());
                },
                ServiceOutput::BroadcastWorkerCommand(command) => {
                    send_to_active_workers(&self.workers, None, command, out);
                },
                ServiceOutput::TimerSet(key, duration_ms) => {
                    out.set_timer(
                        self.pressure_adjusted_idle_timeout(service_id, key.clone(), *duration_ms),
                    );
                },
                ServiceOutput::TimerCancel(key) => {
                    out.cancel_timer(key.clone());
                },
                ServiceOutput::EndpointChanged => {
                    self.emit_endpoint_update_for_service(service_id, out);
                },
                ServiceOutput::ConditionSet { .. } | ServiceOutput::ConditionClear { .. } => {},
                ServiceOutput::IdleTimerStarted { timeout_ms } => {
                    self.observe(
                        service_id,
                        SmServiceEvent::IdleTimerStarted { timeout_ms: *timeout_ms },
                        out,
                    );
                },
                ServiceOutput::IdleTimerCancelled { reason } => {
                    self.observe(
                        service_id,
                        SmServiceEvent::IdleTimerCancelled { reason: *reason },
                        out,
                    );
                },
                ServiceOutput::IdleTimeoutFired => {
                    self.observe(service_id, SmServiceEvent::IdleTimeoutFired, out);
                },
                ServiceOutput::Deactivated { reason } => {
                    self.observe(service_id, SmServiceEvent::Deactivated { reason: *reason }, out);
                },
                ServiceOutput::Activated { trigger } => {
                    self.observe(service_id, SmServiceEvent::Activated { trigger: *trigger }, out);
                },
                ServiceOutput::BackendReady => {
                    self.observe(service_id, SmServiceEvent::BackendReady, out);
                },
            }
            i = i + 1;
        }
        assert(all.take(all.len() as int) =~= all);
    }

    /// `after` differs from `self` in the conditions of one service only, which the outputs set.
    pub open spec fn with_service_conditions(
        self,
        service: Seq<char>,
        outputs: Seq<ServiceOutput>,
        after: NamespaceStateMachine,
    ) -> bool {
        &&& after == NamespaceStateMachine { services: after.services, ..self }
        &&& same_keys(after.services.seq(), self.services.seq())
        &&& self.services@.contains_key(service) ==> {
            &&& after.services@ == self.services@.insert(service, after.services@[service])
            &&& after.services@[service] == ServiceStateMachine {
                conditions: after.services@[service].conditions,
                ..self.services@[service]
            }
            &&& after.services@[service].conditions.seq() == service_conditions(
                self.services@[service].conditions.seq(),
                outputs,
            )
        }
        &&& !self.services@.contains_key(service) ==> after == self
    }

    /// Does what a service asked for.
    pub fn translate_service_effects(
        &mut self,
        service_id: &ServiceId,
        outputs: &Vec<ServiceOutput>,
        out: &mut NamespaceOutput,
    )
        ensures
            final(out)@ == old(self).service_effects(
                old(self).service(service_id.id()),
                *service_id,
                outputs@,
                old(out)@,
            ),
            old(self).with_service_conditions(service_id.id(), outputs@, *final(self)),
    {
        self.give_out_service_effects(service_id, outputs, out);
        let change = |svc: ServiceStateMachine| -> (r: (ServiceStateMachine, ()))
            ensures
                r.0 == (ServiceStateMachine { conditions: r.0.conditions, ..svc }),
                r.0.conditions.seq() == service_conditions(svc.conditions.seq(), outputs@),
            {
                let conditions = apply_service_conditions(svc.conditions, outputs);
                (
                    ServiceStateMachine {
                        service_id: svc.service_id,
                        state: svc.state,
                        workload_id: svc.workload_id,
                        has_activation: svc.has_activation,
                        idle_timeout_ms: svc.idle_timeout_ms,
                        conditions,
                    },
                    (),
                )
            };
        let _ = self.services.modify(service_id, change);
    }
}

// ---- workloads ------------------------------------------------------------------------------

/// Resource values as a worker takes them.
pub open spec fn pod_values(v: Option<ResourceValues>) -> Option<PodResourceValues> {
    match v {
        Some(v) => Some(PodResourceValues { memory_mib: v.memory_mb, vcpus: v.vcpus }),
        None => None,
    }
}

/// Resource requirements as a worker takes them.
pub open spec fn pod_resources(r: Option<ResourceRequirements>) -> Option<PodResourceRequirements> {
    match r {
        Some(r) => Some(
            PodResourceRequirements {
                requests: pod_values(r.requests),
                limits: pod_values(r.limits),
            },
        ),
        None => None,
    }
}

fn convert_values(v: Option<ResourceValues>) -> (r: Option<PodResourceValues>)
    ensures
        r == pod_values(v),
{
    match v {
        Some(v) => Some(PodResourceValues { memory_mib: v.memory_mb, vcpus: v.vcpus }),
        None => None,
    }
}

/// Resource requirements as a worker takes them.
pub fn convert_resources(resources: Option<ResourceRequirements>) -> (r: Option<
    PodResourceRequirements,
>)
    ensures
        r == pod_resources(resources),
{
    match resources {
        Some(r) => Some(
            PodResourceRequirements {
                requests: convert_values(r.requests),
                limits: convert_values(r.limits),
            },
        ),
        None => None,
    }
}

/// The pod that an output puts on a worker.
pub open spec fn launched(output: WorkloadOutput) -> Option<PodId> {
    match output {
        WorkloadOutput::LaunchRequest { pod_id, .. } => Some(pod_id),
        WorkloadOutput::ResumeFromArtifact { pod_id, .. } => Some(pod_id),
        _ => None,
    }
}

/// The pods that the outputs put on workers are new, and no two are the same.
pub open spec fn launches_fresh(outputs: Seq<WorkloadOutput>, pods: Map<Seq<char>, PodInfo>) -> bool {
    &&& forall|i: int|
        0 <= i < outputs.len() && launched(#[trigger] outputs[i]) is Some ==> !pods.contains_key(
            launched(outputs[i]).unwrap().id(),
        )
    &&& forall|i: int, j: int|
        0 <= i < j < outputs.len() && launched(#[trigger] outputs[i]) is Some && launched(
            #[trigger] outputs[j],
        ) is Some ==> launched(outputs[i]).unwrap().id() != launched(outputs[j]).unwrap().id()
}

/// What the outputs of a workload change.
pub struct Translation {
    pub pods: Seq<(PodId, PodInfo)>,
    pub placements: Seq<(ArtifactId, ArtifactPlacement)>,
    pub conditions: Seq<(String, String)>,
    pub readiness: Map<Seq<char>, WorkloadReadyInfo>,
    pub out: OutputView,
    /// The suspensions that could not start.
    pub failed: Seq<WorkloadInput>,
}

impl NamespaceStateMachine {
    /// The interface of a workload's pod: gateway and netmask are those of the namespace.
    pub open spec fn pod_network(self, workload: Seq<char>) -> PodNetworkView {
        let network = self.spec.workloads@[workload].network;
        PodNetworkView {
            ip: network.ip,
            mac: network.mac,
            gateway: self.spec.network.gateway,
            netmask: dotted(mask_of(self.spec.network.prefix_len)),
        }
    }

    /// The netmask can be written where an output puts a pod on a worker.
    pub open spec fn masks_known(self, outputs: Seq<WorkloadOutput>) -> bool {
        forall|i: int|
            0 <= i < outputs.len() && launched(#[trigger] outputs[i]) is Some
                ==> self.spec.network.prefix_len <= 32
    }

    /// The interface of a workload's pod.
    pub fn build_pod_network(&self, workload: &WorkloadSpec) -> (r: PodNetworkConfig)
        requires
            self.spec.network.prefix_len <= 32,
        ensures
            r@ == (PodNetworkView {
                ip: workload.network.ip,
                mac: workload.network.mac,
                gateway: self.spec.network.gateway,
                netmask: dotted(mask_of(self.spec.network.prefix_len)),
            }),
    {
        PodNetworkConfig {
            ip: workload.network.ip,
            mac: workload.network.mac,
            gateway: self.spec.network.gateway,
            netmask: prefix_len_to_netmask(self.spec.network.prefix_len),
        }
    }

    /// The command that starts a workload's pod.
    pub open spec fn launch_command(self, workload: Seq<char>, pod_id: PodId) -> CommandView {
        CommandView::LaunchPod {
            namespace_id: self.namespace_id,
            pod_id,
            network: self.pod_network(workload),
            containers: self.spec.workloads@[workload].containers,
            resources: pod_resources(self.spec.workloads@[workload].resources),
        }
    }

    /// The storage pool of a worker.
    pub open spec fn pool_of(self, worker: Seq<char>) -> Option<PoolId> {
        if self.workers@.contains_key(worker) {
            self.workers@[worker].primary_pool_id
        } else {
            None
        }
    }

    /// The output asks to suspend a pod on a worker without a storage pool.
    pub open spec fn cannot_suspend(self, output: WorkloadOutput) -> bool {
        output matches WorkloadOutput::SuspendRequest { worker_id, .. } && self.pool_of(
            worker_id.id(),
        ) is None
    }

    /// The conditions of a workload.
    pub open spec fn conditions_of(self, workload: Seq<char>) -> Seq<(String, String)> {
        if self.workloads@.contains_key(workload) {
            self.workloads@[workload].conditions.seq()
        } else {
            seq![]
        }
    }

    /// What one output of a workload changes.
    pub open spec fn translated(
        self,
        workload_id: WorkloadId,
        output: WorkloadOutput,
        t: Translation,
    ) -> Translation {
        let w = workload_id.id();
        match output {
            WorkloadOutput::PodRequest => Translation {
                out: OutputView {
                    pod_requests: t.out.pod_requests.push(PodRequest { workload_id }),
                    ..t.out
                },
                ..t
            },
            WorkloadOutput::SuspendRequest { pod_id, worker_id, artifact_id } => {
                match self.pool_of(worker_id.id()) {
                    Some(pool_id) => Translation {
                        out: t.out.with_command(
                            worker_id,
                            CommandView::SuspendPod {
                                namespace_id: self.namespace_id,
                                pod_id,
                                artifact_id,
                                pool_id,
                            },
                        ),
                        ..t
                    },
                    None => Translation {
                        out: t.out.with_workload_event(
                            workload_id,
                            WorkloadEventView::PodSuspendFailed {
                                reason: "worker has no storage pool"@,
                            },
                        ),
                        failed: if self.workloads@.contains_key(w) {
                            t.failed.push(WorkloadInput::PodSuspendFailed { pod_id })
                        } else {
                            t.failed
                        },
                        ..t
                    },
                }
            },
            WorkloadOutput::ResumeRequest { artifact_id } => Translation {
                out: OutputView {
                    resume_requests: t.out.resume_requests.push(
                        ResumeRequest { workload_id, artifact_id },
                    ),
                    ..t.out
                },
                ..t
            },
            WorkloadOutput::LaunchRequest { worker_id, pod_id } => {
                let pods = upsert(t.pods, pod_id, PodInfo { workload_id, worker_id });
                if self.spec.workloads@.contains_key(w) {
                    Translation {
                        pods,
                        out: t.out.with_command(
                            worker_id,
                            self.launch_command(w, pod_id),
                        ).with_commands(self.workload_update_in(pods, w)).with_workload_event(
                            workload_id,
                            WorkloadEventView::PodLaunching { pod_id, worker_id },
                        ),
                        ..t
                    }
                } else {
                    Translation { pods, ..t }
                }
            },
            WorkloadOutput::ResumeFromArtifact { worker_id, pod_id, artifact_id } => {
                let pods = upsert(t.pods, pod_id, PodInfo { workload_id, worker_id });
                let placements = as_map(t.placements);
                if self.spec.workloads@.contains_key(w) && placements.contains_key(
                    artifact_id.id(),
                ) {
                    Translation {
                        pods,
                        out: t.out.with_command(
                            worker_id,
                            CommandView::ResumePod {
                                namespace_id: self.namespace_id,
                                pod_id,
                                artifact_id,
                                network: self.pod_network(w),
                                pool_id: placements[artifact_id.id()].pool_id,
                            },
                        ).with_commands(self.workload_update_in(pods, w)).with_workload_event(
                            workload_id,
                            WorkloadEventView::PodResuming { pod_id, worker_id },
                        ),
                        ..t
                    }
                } else {
                    Translation { pods, ..t }
                }
            },
            WorkloadOutput::DeleteArtifact { artifact_id } => {
                let placements = as_map(t.placements);
                if placements.contains_key(artifact_id.id()) {
                    let p = placements[artifact_id.id()];
                    Translation {
                        placements: erase(t.placements, artifact_id.id()),
                        out: t.out.with_command(
                            p.worker_id,
                            CommandView::DeleteArtifact { artifact_id, pool_id: p.pool_id },
                        ),
                        ..t
                    }
                } else {
                    t
                }
            },
            WorkloadOutput::WorkerCommand(worker_id, command) => Translation {
                out: t.out.with_command(worker_id, command@),
                ..t
            },
            WorkloadOutput::TimerSet(key, duration_ms) => Translation {
                out: t.out.with_timer(
                    TimerRequest { key, duration_ms, band: PressureBand::Normal },
                ),
                ..t
            },
            WorkloadOutput::TimerCancel(key) => Translation { out: t.out.with_cancel(key), ..t },
            WorkloadOutput::ConditionSet { key, message } => {
                if self.workloads@.contains_key(w) {
                    Translation { conditions: upsert(t.conditions, key, message), ..t }
                } else {
                    t
                }
            },
            WorkloadOutput::ConditionClear { key } => {
                if self.workloads@.contains_key(w) {
                    Translation { conditions: erase(t.conditions, key.id()), ..t }
                } else {
                    t
                }
            },
            WorkloadOutput::BecameReady { pod_id, worker_id } => Translation {
                readiness: t.readiness.insert(w, WorkloadReadyInfo { pod_id, worker_id }),
                ..t
            },
            WorkloadOutput::BecameUnready => Translation { readiness: t.readiness.remove(w), ..t },
        }
    }

    /// What the outputs of a workload change, in order.
    pub open spec fn translated_all(
        self,
        workload_id: WorkloadId,
        outputs: Seq<WorkloadOutput>,
        t: Translation,
    ) -> Translation
        decreases outputs.len(),
    {
        if outputs.len() == 0 {
            t
        } else {
            self.translated(
                workload_id,
                outputs.last(),
                self.translated_all(workload_id, outputs.drop_last(), t),
            )
        }
    }

    /// The state that outputs of a workload start from.
    pub open spec fn translation(
        self,
        workload: Seq<char>,
        placements: Seq<(ArtifactId, ArtifactPlacement)>,
        out: OutputView,
    ) -> Translation {
        Translation {
            pods: self.pod_map.seq(),
            placements,
            conditions: self.conditions_of(workload),
            readiness: self.workload_readiness@,
            out,
            failed: seq![],
        }
    }

    /// `after` differs from `self` as `t` says, and in nothing else.
    pub open spec fn changed_as(
        self,
        workload: Seq<char>,
        t: Translation,
        after: NamespaceStateMachine,
    ) -> bool {
        &&& after == NamespaceStateMachine {
            pod_map: after.pod_map,
            workloads: after.workloads,
            workload_readiness: after.workload_readiness,
            ..self
        }
        &&& after.pod_map.seq() == t.pods
        &&& after.workload_readiness@ == t.readiness
        &&& after.workloads.keys() == self.workloads.keys()
        &&& self.workloads@.contains_key(workload) ==> {
            &&& after.workloads@ == self.workloads@.insert(workload, after.workloads@[workload])
            &&& after.workloads@[workload] == Workload {
                conditions: after.workloads@[workload].conditions,
                ..self.workloads@[workload]
            }
            &&& after.workloads@[workload].conditions.seq() == t.conditions
        }
        &&& !self.workloads@.contains_key(workload) ==> after.workloads == self.workloads
    }

    /// Does what one output of a workload asks for. Returns the input that goes back to the
    /// workload's machine, where a suspension could not start.
    pub fn translate_single_workload_output(
        &mut self,
        workload_id: &WorkloadId,
        wl_out: &WorkloadOutput,
        placement_table: &mut PlacementTable,
        out: &mut NamespaceOutput,
    ) -> (r: Option<WorkloadInput>)
        requires
            launched(*wl_out) is Some ==> old(self).spec.network.prefix_len <= 32,
            launched(*wl_out) matches Some(p) ==> !old(self).pod_map@.contains_key(p.id()),
        ensures
            ({
                let t = old(self).translated(
                    *workload_id,
                    *wl_out,
                    old(self).translation(workload_id.id(), old(placement_table).seq(), old(out)@),
                );
                &&& old(self).changed_as(workload_id.id(), t, *final(self))
                &&& final(placement_table).seq() == t.placements
                &&& final(out)@ == t.out
                &&& t.failed == (match r {
                    Some(input) => seq![input],
                    None => seq![],
                })
            }),
            final(self).pod_map@ == (match *wl_out {
                WorkloadOutput::LaunchRequest { worker_id, pod_id } => old(self).pod_map@.insert(
                    pod_id.id(),
                    PodInfo { workload_id: *workload_id, worker_id },
                ),
                WorkloadOutput::ResumeFromArtifact { worker_id, pod_id, .. } => old(
                    self,
                ).pod_map@.insert(
                    pod_id.id(),
                    PodInfo { workload_id: *workload_id, worker_id },
                ),
                _ => old(self).pod_map@,
            }),
            r is Some ==> old(self).cannot_suspend(*wl_out),
    {
        let ghost w = workload_id.id();
        proof {
            if self.workloads@.contains_key(w) {
                assert(self.workloads@.insert(w, self.workloads@[w]) =~= self.workloads@);
            }
        }
        match wl_out {
            WorkloadOutput::PodRequest => {
                out.request_pod(workload_id.clone());
            },
            WorkloadOutput::SuspendRequest { pod_id, worker_id, artifact_id } => {
                let pool: Option<PoolId> = match self.workers.get(worker_id) {
                    Some(state) => clone_pool(&state.primary_pool_id),
                    None => None,
                };
                match pool {
                    Some(pool_id) => {
                        out.command(
                            worker_id.clone(),
                            WorkerCommand::SuspendPod {
                                namespace_id: self.namespace_id.clone(),
                                pod_id: pod_id.clone(),
                                artifact_id: artifact_id.clone(),
                                pool_id,
                            },
                        );
                    },
                    None => {
                        // Without a pool nothing can be suspended: the workload is told so.
                        out.workload_event(
                            workload_id.clone(),
                            SmWorkloadEvent::PodSuspendFailed {
                                reason: "worker has no storage pool".to_owned(),
                            },
                        );
                        if self.workloads.contains_key(workload_id) {
                            assert(seq![].push(WorkloadInput::PodSuspendFailed { pod_id: *pod_id })
                                =~= seq![WorkloadInput::PodSuspendFailed { pod_id: *pod_id }]);
                            return Some(WorkloadInput::PodSuspendFailed { pod_id: pod_id.clone() });
                        }
                    },
                }
            },
            WorkloadOutput::ResumeRequest { artifact_id } => {
                out.request_resume(workload_id.clone(), artifact_id.clone());
            },
            WorkloadOutput::LaunchRequest { worker_id, pod_id } => {
                self.pod_map.insert(
                    pod_id.clone(),
                    PodInfo { workload_id: workload_id.clone(), worker_id: worker_id.clone() },
                );
                let command: Option<WorkerCommand> = match self.spec.workloads.get(workload_id) {
                    Some(wl_spec) => Some(
                        WorkerCommand::LaunchPod {
                            namespace_id: self.namespace_id.clone(),
                            pod_id: pod_id.clone(),
                            network: self.build_pod_network(wl_spec),
                            containers: wl_spec.containers.clone(),
                            resources: convert_resources(wl_spec.resources),
                        },
                    ),
                    None => None,
                };
                if let Some(command) = command {
                    out.command(worker_id.clone(), command);
                    self.emit_endpoint_update_for_workload(workload_id, out);
                    out.workload_event(
                        workload_id.clone(),
                        SmWorkloadEvent::PodLaunching {
                            pod_id: pod_id.clone(),
                            worker_id: worker_id.clone(),
                        },
                    );
                }
            },
            WorkloadOutput::ResumeFromArtifact { worker_id, pod_id, artifact_id } => {
                self.pod_map.insert(
                    pod_id.clone(),
                    PodInfo { workload_id: workload_id.clone(), worker_id: worker_id.clone() },
                );
                let command: Option<WorkerCommand> = match self.spec.workloads.get(workload_id) {
                    Some(wl_spec) => match placement_table.get(artifact_id) {
                        Some(placement) => Some(
                            WorkerCommand::ResumePod {
                                namespace_id: self.namespace_id.clone(),
                                pod_id: pod_id.clone(),
                                artifact_id: artifact_id.clone(),
                                network: self.build_pod_network(wl_spec),
                                pool_id: placement.pool_id.clone(),
                            },
                        ),
                        None => None,
                    },
                    None => None,
                };
                if let Some(command) = command {
                    out.command(worker_id.clone(), command);
                    self.emit_endpoint_update_for_workload(workload_id, out);
                    out.workload_event(
                        workload_id.clone(),
                        SmWorkloadEvent::PodResuming {
                            pod_id: pod_id.clone(),
                            worker_id: worker_id.clone(),
                        },
                    );
                }
            },
            WorkloadOutput::DeleteArtifact { artifact_id } => {
                if let Some(placement) = placement_table.remove(artifact_id) {
                    out.command(
                        placement.worker_id,
                        WorkerCommand::DeleteArtifact {
                            artifact_id: artifact_id.clone(),
                            pool_id: placement.pool_id,
                        },
                    );
                }
            },
            WorkloadOutput::WorkerCommand(worker_id, command) => {
                out.command(worker_id.clone(), command.clone());
            },
            WorkloadOutput::TimerSet(key, duration_ms) => {
                out.set_timer(
                    TimerRequest {
                        key: key.clone(),
                        duration_ms: *duration_ms,
                        band: PressureBand::Normal,
                    },
                );
            },
            WorkloadOutput::TimerCancel(key) => {
                out.cancel_timer(key.clone());
            },
            WorkloadOutput::ConditionSet { key, message } => {
                let change = |wl: Workload| -> (r: (Workload, ()))
                    ensures
                        r.0 == (Workload { conditions: r.0.conditions, ..wl }),
                        r.0.conditions.seq() == upsert(wl.conditions.seq(), *key, *message),
                    {
                        let mut conditions: SortedMap<String, String> = wl.conditions;
                        conditions.insert(key.clone(), message.clone());
                        (
                            Workload {
                                status: wl.status,
                                suspend_on_idle: wl.suspend_on_idle,
                                conditions,
                            },
                            (),
                        )
                    };
                let _ = self.workloads.modify(workload_id, change);
            },
            WorkloadOutput::ConditionClear { key } => {
                let change = |wl: Workload| -> (r: (Workload, ()))
                    ensures
                        r.0 == (Workload { conditions: r.0.conditions, ..wl }),
                        r.0.conditions.seq() == erase(wl.conditions.seq(), key.id()),
                    {
                        let mut conditions: SortedMap<String, String> = wl.conditions;
                        let _ = conditions.remove(key);
                        (
                            Workload {
                                status: wl.status,
                                suspend_on_idle: wl.suspend_on_idle,
                                conditions,
                            },
                            (),
                        )
                    };
                let _ = self.workloads.modify(workload_id, change);
            },
            WorkloadOutput::BecameReady { pod_id, worker_id } => {
                self.workload_readiness.insert(
                    workload_id.clone(),
                    WorkloadReadyInfo { pod_id: pod_id.clone(), worker_id: worker_id.clone() },
                );
            },
            WorkloadOutput::BecameUnready => {
                let _ = self.workload_readiness.remove(workload_id);
            },
        }
        None
    }

    /// The follow-ups for suspensions that could not start.
    pub open spec fn retries(workload_id: WorkloadId, failed: Seq<WorkloadInput>) -> Seq<FollowUp> {
        failed.map_values(
            |input: WorkloadInput| FollowUp::StepWorkload { workload_id, input, retry: true },
        )
    }

    /// Does what the outputs of a workload ask for, in order. A suspension that cannot start goes
    /// back to the workload's machine after all of them; the machine's answer to that asks for no
    /// such suspension again, so one more round is enough.
    pub fn translate_workload_effects(
        &mut self,
        workload_id: &WorkloadId,
        outputs: &Vec<WorkloadOutput>,
        placement_table: &mut PlacementTable,
        out: &mut NamespaceOutput,
    ) -> (r: Vec<FollowUp>)
        requires
            old(self).masks_known(outputs@),
            launches_fresh(outputs@, old(self).pod_map@),
        ensures
            ({
                let t = old(self).translated_all(
                    *workload_id,
                    outputs@,
                    old(self).translation(workload_id.id(), old(placement_table).seq(), old(out)@),
                );
                &&& old(self).changed_as(workload_id.id(), t, *final(self))
                &&& final(placement_table).seq() == t.placements
                &&& final(out)@ == t.out
                &&& r@ == Self::retries(*workload_id, t.failed)
            }),
            (forall|i: int|
                0 <= i < outputs@.len() ==> !old(self).cannot_suspend(#[trigger] outputs@[i]))
                ==> r@.len() == 0,
    {
        let ghost base = *self;
        let ghost w = workload_id.id();
        let ghost all = outputs@;
        let ghost start = base.translation(w, placement_table.seq(), out@);
        let ghost mut t = start;
        let mut follow_ups: Vec<FollowUp> = Vec::new();
        let mut i: usize = 0;
        proof {
            assert(all.take(0) =~= Seq::<WorkloadOutput>::empty());
            if base.workloads@.contains_key(w) {
                assert(base.workloads@.insert(w, base.workloads@[w]) =~= base.workloads@);
            }
            assert(follow_ups@ =~= Self::retries(*workload_id, t.failed));
        }
        while i < outputs.len()
            invariant
                i <= all.len(),
                all == outputs@,
                w == workload_id.id(),
                base == *old(self),
                start == base.translation(w, old(placement_table).seq(), old(out)@),
                base.masks_known(outputs@),
                t == base.translated_all(*workload_id, all.take(i as int), start),
                base.changed_as(w, t, *self),
                placement_table.seq() == t.placements,
                out@ == t.out,
                follow_ups@ == Self::retries(*workload_id, t.failed),
                t.conditions == self.conditions_of(w),
                launches_fresh(all, base.pod_map@),
                forall|j: int|
                    i <= j < all.len() && launched(#[trigger] all[j]) is Some
                        ==> !self.pod_map@.contains_key(launched(all[j]).unwrap().id()),
                (forall|j: int| 0 <= j < i ==> !base.cannot_suspend(#[trigger] all[j]))
                    ==> follow_ups@.len() == 0,
            decreases all.len() - i,
        {
            let ghost cur = *self;
            let ghost o = all[i as int];
            let ghost local = cur.translation(w, placement_table.seq(), out@);
            let failed = self.translate_single_workload_output(
                workload_id,
                &outputs[i],
                placement_table,
                out,
            );
            proof {
                assert(all.take(i + 1).drop_last() =~= all.take(i as int));
                assert(all.take(i + 1).last() == o);
                lemma_same_translation(cur, base, *workload_id, o, local);
                lemma_failed_adds(base, *workload_id, o, local, t);
                let next = base.translated(*workload_id, o, t);
                assert(base.changed_as(w, next, *self)) by {
                    if base.workloads@.contains_key(w) {
                        assert(self.workloads@ =~= base.workloads@.insert(w, self.workloads@[w]));
                    }
                }
                t = next;
            }
            if let Some(input) = failed {
                follow_ups.push(
                    FollowUp::StepWorkload { workload_id: workload_id.clone(), input, retry: true },
                );
            }
            assert(follow_ups@ =~= Self::retries(*workload_id, t.failed));
            i = i + 1;
        }
        assert(all.take(all.len() as int) =~= all);
        follow_ups
    }

    /// Takes in what a step of a workload's machine gave. Returns what is to be done next.
    pub fn workload_stepped(
        &mut self,
        workload_id: &WorkloadId,
        status: WorkloadStatus,
        outputs: &Vec<WorkloadOutput>,
        retry: bool,
        placement_table: &mut PlacementTable,
        out: &mut NamespaceOutput,
    ) -> (r: Vec<FollowUp>)
        requires
            old(self).masks_known(outputs@),
            launches_fresh(outputs@, old(self).pod_map@),
            retry ==> forall|i: int|
                0 <= i < outputs@.len() ==> !old(self).cannot_suspend(#[trigger] outputs@[i]),
        ensures
            exists|noted: NamespaceStateMachine|
                {
                    let t = noted.translated_all(
                        *workload_id,
                        outputs@,
                        noted.translation(workload_id.id(), old(placement_table).seq(), old(out)@),
                    );
                    &&& #[trigger] old(self).noting(workload_id.id(), status, noted)
                    &&& noted.changed_as(workload_id.id(), t, *final(self))
                    &&& final(placement_table).seq() == t.placements
                    &&& final(out)@ == t.out
                    &&& r@ == Self::retries(*workload_id, t.failed)
                },
            retry ==> r@.len() == 0,
    {
        let ghost before = *self;
        let change = |wl: Workload| -> (r: (Workload, ()))
            ensures
                r.0 == (Workload { status, ..wl }),
            {
                (
                    Workload { status, suspend_on_idle: wl.suspend_on_idle, conditions: wl.conditions },
                    (),
                )
            };
        let _ = self.workloads.modify(workload_id, change);
        let ghost noted = *self;
        assert(before.noting(workload_id.id(), status, noted));
        self.translate_workload_effects(workload_id, outputs, placement_table, out)
    }

    /// `after` is `self` with the new status of one workload, if it is there.
    pub open spec fn noting(
        self,
        workload: Seq<char>,
        status: WorkloadStatus,
        after: NamespaceStateMachine,
    ) -> bool {
        &&& after == NamespaceStateMachine { workloads: after.workloads, ..self }
        &&& after.workloads.keys() == self.workloads.keys()
        &&& after.workloads@ == (if self.workloads@.contains_key(workload) {
            self.workloads@.insert(workload, Workload { status, ..self.workloads@[workload] })
        } else {
            self.workloads@
        })
    }
}

proof fn lemma_same_translation(
    a: NamespaceStateMachine,
    b: NamespaceStateMachine,
    workload_id: WorkloadId,
    output: WorkloadOutput,
    t: Translation,
)
    requires
        a.namespace_id == b.namespace_id,
        a.spec == b.spec,
        a.workers == b.workers,
        a.workloads@.contains_key(workload_id.id()) == b.workloads@.contains_key(workload_id.id()),
    ensures
        a.translated(workload_id, output, t) == b.translated(workload_id, output, t),
{
}

proof fn lemma_failed_adds(
    ns: NamespaceStateMachine,
    workload_id: WorkloadId,
    output: WorkloadOutput,
    local: Translation,
    t: Translation,
)
    requires
        local == (Translation { failed: seq![], ..t }),
    ensures
        ns.translated(workload_id, output, t) == (Translation {
            failed: t.failed + ns.translated(workload_id, output, local).failed,
            ..ns.translated(workload_id, output, local)
        }),
{
    let a = ns.translated(workload_id, output, t);
    let b = ns.translated(workload_id, output, local);
    assert(a.failed =~= t.failed + b.failed);
}

/// A machine's second round, which asks for no suspension that cannot start, ends the exchange.
pub proof fn law_retry_ends(
    ns: NamespaceStateMachine,
    workload_id: WorkloadId,
    outputs: Seq<WorkloadOutput>,
    t: Translation,
)
    requires
        forall|i: int| 0 <= i < outputs.len() ==> !ns.cannot_suspend(#[trigger] outputs[i]),
    ensures
        ns.translated_all(workload_id, outputs, t).failed == t.failed,
    decreases outputs.len(),
{
    if outputs.len() > 0 {
        assert forall|i: int| 0 <= i < outputs.drop_last().len() implies !ns.cannot_suspend(
            #[trigger] outputs.drop_last()[i],
        ) by {
            assert(!ns.cannot_suspend(outputs[i]));
        }
        law_retry_ends(ns, workload_id, outputs.drop_last(), t);
        assert(!ns.cannot_suspend(outputs[outputs.len() - 1]));
    }
}

/// Outputs of one workload touch the readiness of no other.
pub proof fn law_readiness_is_per_workload(
    ns: NamespaceStateMachine,
    workload_id: WorkloadId,
    outputs: Seq<WorkloadOutput>,
    t: Translation,
    other: Seq<char>,
)
    requires
        other != workload_id.id(),
    ensures
        ({
            let after = ns.translated_all(workload_id, outputs, t).readiness;
            &&& after.contains_key(other) == t.readiness.contains_key(other)
            &&& t.readiness.contains_key(other) ==> after[other] == t.readiness[other]
        }),
    decreases outputs.len(),
{
    if outputs.len() > 0 {
        law_readiness_is_per_workload(ns, workload_id, outputs.drop_last(), t, other);
    }
}

} // verus!
