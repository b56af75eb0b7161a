//! What services and workloads ask for is done: commands reach the workers, timers run and stop, and
//! readiness and demand travel between workloads and their services.
use vstd::prelude::*;

use crate::ids::{ArtifactId, PodId, ServiceId, WorkerId, WorkloadId};
use crate::namespace::command_laws::{is_up, lemma_broadcast, lemma_contains_pushed};
use crate::namespace::commands::{can_sleep, first_needed, is_awake};
use crate::namespace::effects::{service_conditions, Translation};
use crate::namespace::reconciliation::{demanding, tied};
use crate::namespace::{placement_of, FollowUp, NamespaceStateMachine};
use crate::output::{
    ClientEventView, EventView, OutputView, PodRequest, ResumeRequest, SmServiceEvent, TimerRequest,
    WorkloadEventView,
};
use crate::placement::ArtifactPlacement;
use crate::pod_map::PodInfo;
use crate::service::{
    law_backend_told_matches_state, ServiceDeactivationReason, ServiceInput, ServiceOutput,
    ServiceState, ServiceStateMachine,
};
use crate::sorted_map::{
    as_map, erase, increasing, lemma_contains_either, lemma_position_unique,
    lemma_stays_increasing, upsert, Key,
};
use crate::text::{dotted, mask_of};
use crate::types::{
    BackendNeed, CommandView, EndpointKind, EndpointSpec, PressureBand, ServiceBackend, TimerKey,
    WorkerCommand,
};
use crate::workload::{WorkloadInput, WorkloadOutput, WorkloadReadyInfo, WorkloadStatus};

verus! {

// ---- services -----------------------------------------------------------------------------------

/// A command comes from an output of a service: it was meant for that worker, or for every worker
/// and the fabric of this one is up.
pub open spec fn asked_by(
    ns: NamespaceStateMachine,
    output: ServiceOutput,
    w: WorkerId,
    c: CommandView,
) -> bool {
    match output {
        ServiceOutput::WorkerCommand(worker_id, command) => worker_id == w && command@ == c,
        ServiceOutput::BroadcastWorkerCommand(command) => command@ == c && is_up(ns, w),
        _ => false,
    }
}

/// The outputs of a service take effect, each of them and nothing else. A command for all goes to
/// the workers whose fabric is up. A timer that is stopped is stopped. A timer that is set is set
/// with its own duration.
pub proof fn law_service_outputs_take_effect(
    ns: NamespaceStateMachine,
    svc: Option<ServiceStateMachine>,
    service_id: ServiceId,
    outputs: Seq<ServiceOutput>,
    out: OutputView,
    w: WorkerId,
    c: CommandView,
    key: TimerKey,
    request: TimerRequest,
)
    requires
        forall|i: int| 0 <= i < outputs.len() ==> !((#[trigger] outputs[i]) is EndpointChanged),
    ensures
        ns.service_effects(svc, service_id, outputs, out).worker_commands.contains((w, c)) <==> (
        out.worker_commands.contains((w, c)) || exists|i: int|
            0 <= i < outputs.len() && asked_by(ns, #[trigger] outputs[i], w, c)),
        ns.service_effects(svc, service_id, outputs, out).timers_cancel.contains(key) <==> (
        out.timers_cancel.contains(key) || outputs.contains(ServiceOutput::TimerCancel(key))),
        ns.service_effects(svc, service_id, outputs, out).timers_set.contains(request) <==> (
        out.timers_set.contains(request) || (outputs.contains(
            ServiceOutput::TimerSet(request.key, request.duration_ms),
        ) && request.band == (match (request.key, svc) {
            (TimerKey::IdleTimeout { .. }, Some(s)) => match s.state {
                ServiceState::Active { worker_id, .. } => if ns.workers@.contains_key(
                    worker_id.id(),
                ) {
                    ns.workers@[worker_id.id()].pressure_band
                } else {
                    PressureBand::Normal
                },
                _ => PressureBand::Normal,
            },
            _ => PressureBand::Normal,
        }))),
        ns.service_effects(svc, service_id, outputs, out).client_events == out.client_events,
        ns.service_effects(svc, service_id, outputs, out).destroyed == out.destroyed,
        ns.service_effects(svc, service_id, outputs, out).pod_requests == out.pod_requests,
        ns.service_effects(svc, service_id, outputs, out).resume_requests == out.resume_requests,
    decreases outputs.len(),
{
    if outputs.len() > 0 {
        let front = outputs.drop_last();
        let last = outputs.len() - 1;
        assert forall|i: int| 0 <= i < front.len() implies !((
        #[trigger] front[i]) is EndpointChanged) by {
            assert(front[i] == outputs[i]);
        }
        law_service_outputs_take_effect(ns, svc, service_id, front, out, w, c, key, request);
        let rest = ns.service_effects(svc, service_id, front, out);
        assert(outputs =~= front.push(outputs[last]));
        lemma_contains_pushed(front, outputs[last], ServiceOutput::TimerCancel(key));
        lemma_contains_pushed(
            front,
            outputs[last],
            ServiceOutput::TimerSet(request.key, request.duration_ms),
        );
        assert(!(outputs[last] is EndpointChanged));
        match outputs[last] {
            ServiceOutput::WorkerCommand(worker_id, command) => {
                lemma_contains_pushed(rest.worker_commands, (worker_id, command@), (w, c));
            },
            ServiceOutput::BroadcastWorkerCommand(command) => {
                lemma_broadcast(ns, command@, w, c);
                lemma_contains_either(rest.worker_commands, ns.broadcast(command@), (w, c));
            },
            ServiceOutput::TimerSet(k, d) => {
                lemma_contains_pushed(rest.timers_set, ns.service_timer(svc, k, d), request);
            },
            ServiceOutput::TimerCancel(k) => {
                lemma_contains_pushed(rest.timers_cancel, k, key);
            },
            _ => {},
        }
        if exists|i: int| 0 <= i < front.len() && asked_by(ns, #[trigger] front[i], w, c) {
            let i = choose|i: int| 0 <= i < front.len() && asked_by(ns, #[trigger] front[i], w, c);
            assert(outputs[i] == front[i]);
        }
        if exists|i: int| 0 <= i < outputs.len() && asked_by(ns, #[trigger] outputs[i], w, c) {
            let i = choose|i: int|
                0 <= i < outputs.len() && asked_by(ns, #[trigger] outputs[i], w, c);
            if i < last {
                assert(front[i] == outputs[i]);
            }
        }
    }
}

/// A service that becomes active through a step has every worker whose fabric is up learn of its
/// backend and of its readiness. One that leaves its active state has each of them learn that there
/// is no backend any more.
pub proof fn law_step_tells_workers(
    ns: NamespaceStateMachine,
    service_id: ServiceId,
    input: ServiceInput,
    out: OutputView,
    given: OutputView,
    w: WorkerId,
)
    requires
        ns.services@.contains_key(service_id.id()),
        given == ns.step_out(service_id, input, out),
        is_up(ns, w),
    ensures
        input matches ServiceInput::WorkloadReady { backend, .. } && (
        ns.services@[service_id.id()].state is NeedBackend
            || ns.services@[service_id.id()].state is Pending) ==> {
            &&& given.worker_commands.contains(
                (
                    w,
                    CommandView::UpdateServiceBackend {
                        namespace_id: ns.namespace_id,
                        service_id: ns.services@[service_id.id()].service_id,
                        backend: Some(input->backend),
                    },
                ),
            )
            &&& given.worker_commands.contains(
                (
                    w,
                    CommandView::ServiceReady {
                        namespace_id: ns.namespace_id,
                        service_id: ns.services@[service_id.id()].service_id,
                    },
                ),
            )
        },
        ns.services@[service_id.id()].state is Active && (input is WorkloadUnready || (
        input is ForceDeactivate && ns.services@[service_id.id()].has_activation))
            ==> given.worker_commands.contains(
            (
                w,
                CommandView::UpdateServiceBackend {
                    namespace_id: ns.namespace_id,
                    service_id: ns.services@[service_id.id()].service_id,
                    backend: None,
                },
            ),
        ),
        forall|e: (WorkerId, CommandView)|
            out.worker_commands.contains(e) ==> #[trigger] given.worker_commands.contains(e),
{
    let svc = ns.services@[service_id.id()];
    let outputs = svc.outputs(input, ns.namespace_id);
    let after = NamespaceStateMachine::stepped(svc, input);
    let key = TimerKey::IdleTimeout { service_id };
    let request = TimerRequest { key, duration_ms: 0, band: PressureBand::Normal };
    law_backend_told_matches_state(svc, after, input, ns.namespace_id, outputs);
    assert forall|e: (WorkerId, CommandView)|
        out.worker_commands.contains(e) implies #[trigger] given.worker_commands.contains(e) by {
        law_service_outputs_take_effect(
            ns,
            Some(after),
            service_id,
            outputs,
            out,
            e.0,
            e.1,
            key,
            request,
        );
    }
    if let ServiceInput::WorkloadReady { backend, .. } = input {
        if svc.state is NeedBackend || svc.state is Pending {
            let told = CommandView::UpdateServiceBackend {
                namespace_id: ns.namespace_id,
                service_id: svc.service_id,
                backend: Some(backend),
            };
            let ready = CommandView::ServiceReady {
                namespace_id: ns.namespace_id,
                service_id: svc.service_id,
            };
            assert(asked_by(ns, outputs[0], w, told));
            assert(asked_by(ns, outputs[1], w, ready));
            law_service_outputs_take_effect(
                ns,
                Some(after),
                service_id,
                outputs,
                out,
                w,
                told,
                key,
                request,
            );
            law_service_outputs_take_effect(
                ns,
                Some(after),
                service_id,
                outputs,
                out,
                w,
                ready,
                key,
                request,
            );
        }
    }
    if svc.state is Active && (input is WorkloadUnready || (input is ForceDeactivate
        && svc.has_activation)) {
        let none = WorkerCommand::UpdateServiceBackend {
            namespace_id: ns.namespace_id,
            service_id: svc.service_id,
            backend: None,
        };
        let o = ServiceOutput::BroadcastWorkerCommand(none);
        assert(outputs.contains(o));
        let i = outputs.index_of(o);
        assert(asked_by(ns, outputs[i], w, none@));
        law_service_outputs_take_effect(
            ns,
            Some(after),
            service_id,
            outputs,
            out,
            w,
            none@,
            key,
            request,
        );
    }
}

// ---- readiness ----------------------------------------------------------------------------------

proof fn lemma_readiness_reaches(
    ns: NamespaceStateMachine,
    links: Seq<(ServiceId, WorkloadId)>,
    workload: Seq<char>,
    input: ServiceInput,
    out: OutputView,
    i: int,
    w: WorkerId,
) -> (mid: OutputView)
    requires
        0 <= i < links.len(),
        links[i].1.id() == workload,
        ns.services@.contains_key(links[i].0.id()),
        is_up(ns, w),
    ensures
        forall|e: (WorkerId, CommandView)| #[trigger]
            ns.step_out(links[i].0, input, mid).worker_commands.contains(e) ==> ns.readiness_out(
                links,
                workload,
                input,
                out,
            ).worker_commands.contains(e),
    decreases links.len(),
{
    let front = links.drop_last();
    let last = links.len() - 1;
    let rest = ns.readiness_out(front, workload, input, out);
    let all = ns.readiness_out(links, workload, input, out);
    if i < last {
        assert(front[i] == links[i]);
        let mid = lemma_readiness_reaches(ns, front, workload, input, out, i, w);
        if links[last].1.id() == workload && ns.services@.contains_key(links[last].0.id()) {
            law_step_tells_workers(ns, links[last].0, input, rest, all, w);
        }
        mid
    } else {
        rest
    }
}

/// When a workload is ready, each of its services that waits for a backend is served by the
/// workload's pod, and every worker whose fabric is up is told the workload's address as the
/// backend of that service.
pub proof fn law_ready_workload_serves_its_services(
    before: NamespaceStateMachine,
    workload_id: WorkloadId,
    after: NamespaceStateMachine,
    out: OutputView,
    given: OutputView,
    next: Seq<FollowUp>,
    i: int,
    w: WorkerId,
)
    requires
        before.follows(FollowUp::ReconcileReadiness { workload_id }, after, out, given, next),
        before.workload_readiness@.contains_key(workload_id.id()),
        before.spec.workloads@.contains_key(workload_id.id()),
        0 <= i < before.service_workload.seq().len(),
        before.service_workload.seq()[i].1.id() == workload_id.id(),
        before.services@.contains_key(before.service_workload.seq()[i].0.id()),
        before.services@[before.service_workload.seq()[i].0.id()].state is NeedBackend
            || before.services@[before.service_workload.seq()[i].0.id()].state is Pending,
        is_up(before, w),
    ensures
        next.len() == 0,
        given.worker_commands.contains(
            (
                w,
                CommandView::UpdateServiceBackend {
                    namespace_id: before.namespace_id,
                    service_id: before.services@[before.service_workload.seq()[i].0.id()].service_id,
                    backend: Some(
                        ServiceBackend { pod_ip: before.spec.workloads@[workload_id.id()].network.ip },
                    ),
                },
            ),
        ),
        after.services@[before.service_workload.seq()[i].0.id()].state == (ServiceState::Active {
            pod_id: before.workload_readiness@[workload_id.id()].pod_id,
            worker_id: before.workload_readiness@[workload_id.id()].worker_id,
            backend_need: BackendNeed::Active,
            idle_timer: None,
        }),
{
    let links = before.service_workload.seq();
    let id = links[i].0;
    let workload = workload_id.id();
    let input = before.readiness_input(workload).unwrap();
    let mid = lemma_readiness_reaches(before, links, workload, input, out, i, w);
    law_step_tells_workers(before, id, input, mid, before.step_out(id, input, mid), w);
    assert(tied(links, links.len() as int, id.id(), workload));
}

/// When a workload is not ready, none of its services stays active: one that can be woken sleeps,
/// and another waits for a backend. Every worker whose fabric is up is told that a service that was
/// active has no backend any more.
pub proof fn law_unready_workload_serves_nobody(
    before: NamespaceStateMachine,
    workload_id: WorkloadId,
    after: NamespaceStateMachine,
    out: OutputView,
    given: OutputView,
    next: Seq<FollowUp>,
    i: int,
    w: WorkerId,
)
    requires
        before.follows(FollowUp::ReconcileReadiness { workload_id }, after, out, given, next),
        !before.workload_readiness@.contains_key(workload_id.id()),
        0 <= i < before.service_workload.seq().len(),
        before.service_workload.seq()[i].1.id() == workload_id.id(),
        before.services@.contains_key(before.service_workload.seq()[i].0.id()),
        before.services@[before.service_workload.seq()[i].0.id()].state is Active,
        is_up(before, w),
    ensures
        next.len() == 0,
        given.worker_commands.contains(
            (
                w,
                CommandView::UpdateServiceBackend {
                    namespace_id: before.namespace_id,
                    service_id: before.services@[before.service_workload.seq()[i].0.id()].service_id,
                    backend: None,
                },
            ),
        ),
        after.services@[before.service_workload.seq()[i].0.id()].state == (
        if before.services@[before.service_workload.seq()[i].0.id()].has_activation {
            ServiceState::Idle
        } else {
            ServiceState::NeedBackend
        }),
{
    let links = before.service_workload.seq();
    let id = links[i].0;
    let workload = workload_id.id();
    let input = before.readiness_input(workload).unwrap();
    let mid = lemma_readiness_reaches(before, links, workload, input, out, i, w);
    law_step_tells_workers(before, id, input, mid, before.step_out(id, input, mid), w);
    assert(tied(links, links.len() as int, id.id(), workload));
}

/// Readiness leaves alone whatever is not a service of the workload.
pub proof fn law_readiness_is_told_to_own_services(
    before: NamespaceStateMachine,
    workload_id: WorkloadId,
    after: NamespaceStateMachine,
    out: OutputView,
    given: OutputView,
    next: Seq<FollowUp>,
    service: Seq<char>,
)
    requires
        before.follows(FollowUp::ReconcileReadiness { workload_id }, after, out, given, next),
        before.services@.contains_key(service),
        forall|i: int|
            0 <= i < before.service_workload.seq().len() && (
            #[trigger] before.service_workload.seq()[i]).0.id() == service
                ==> before.service_workload.seq()[i].1.id() != workload_id.id(),
    ensures
        after.services@.contains_key(service),
        after.services@[service] == before.services@[service],
        after.workloads == before.workloads,
        after.pod_map == before.pod_map,
        after.workers == before.workers,
        after.status == before.status,
{
    assert(after.services@.dom().contains(service));
    assert(after.services@[service] == before.services@[service]);
}

// ---- demand -------------------------------------------------------------------------------------

/// A link adds one to the demand for its workload exactly if its service waits for a backend or has
/// one. A service that sleeps or has not started adds nothing.
pub proof fn law_awake_services_count_as_demand(
    links: Seq<(ServiceId, WorkloadId)>,
    link: (ServiceId, WorkloadId),
    services: Map<Seq<char>, ServiceStateMachine>,
    workload: Seq<char>,
)
    ensures
        demanding(Seq::empty(), services, workload) == 0,
        demanding(links.push(link), services, workload) == demanding(links, services, workload) + (
        if link.1.id() == workload && services.contains_key(link.0.id())
            && match services[link.0.id()].state {
            ServiceState::Pending => false,
            ServiceState::Idle => false,
            ServiceState::NeedBackend => true,
            ServiceState::Active { .. } => true,
        } {
            1nat
        } else {
            0nat
        }),
{
    assert(links.push(link).drop_last() =~= links);
}

/// Open flows add one to the demand for their workload.
pub proof fn law_flows_count_as_demand(ns: NamespaceStateMachine, workload: Seq<char>)
    ensures
        ns.demand(workload) == demanding(ns.service_workload.seq(), ns.services@, workload) + (
        if ns.active_flows@.contains_key(workload) {
            1nat
        } else {
            0nat
        }),
{
}

/// A check of the demand tells a workload the count when it differs from what the workload knows,
/// and only then, and goes on to the readiness of the workload. An unknown workload is told nothing.
pub proof fn law_demand_check(
    ns: NamespaceStateMachine,
    workload_id: WorkloadId,
    next: Seq<FollowUp>,
)
    requires
        next == ns.demand_next(workload_id),
    ensures
        !ns.workloads@.contains_key(workload_id.id()) ==> next.len() == 0,
        ns.workloads@.contains_key(workload_id.id()) ==> next.len() > 0 && next.last() == (
        FollowUp::ReconcileReadiness { workload_id }),
        ns.workloads@.contains_key(workload_id.id()) && ns.demand(workload_id.id())
            == ns.workloads@[workload_id.id()].status.current_demand ==> next.len() == 1,
        ns.workloads@.contains_key(workload_id.id()) && ns.demand(workload_id.id())
            != ns.workloads@[workload_id.id()].status.current_demand ==> next.len() == 2 && next[0]
            == (FollowUp::StepWorkload {
            workload_id,
            input: WorkloadInput::SetDemand { count: ns.demand(workload_id.id()) as u32 },
            retry: false,
        }),
{
}

// ---- workloads ----------------------------------------------------------------------------------

/// The outputs of a workload take effect one after the other, in order.
pub proof fn law_workload_outputs_in_turn(
    ns: NamespaceStateMachine,
    workload_id: WorkloadId,
    first: Seq<WorkloadOutput>,
    second: Seq<WorkloadOutput>,
    output: WorkloadOutput,
    t: Translation,
)
    ensures
        ns.translated_all(workload_id, Seq::empty(), t) == t,
        ns.translated_all(workload_id, seq![output], t) == ns.translated(workload_id, output, t),
        ns.translated_all(workload_id, first + second, t) == ns.translated_all(
            workload_id,
            second,
            ns.translated_all(workload_id, first, t),
        ),
    decreases second.len(),
{
    reveal_with_fuel(NamespaceStateMachine::translated_all, 2);
    assert(seq![output].drop_last() =~= Seq::<WorkloadOutput>::empty());
    if second.len() == 0 {
        assert(first + second =~= first);
    } else {
        assert((first + second).drop_last() =~= first + second.drop_last());
        law_workload_outputs_in_turn(
            ns,
            workload_id,
            first,
            second.drop_last(),
            output,
            t,
        );
    }
}

/// A workload that asks for a pod, or for its snapshot to be resumed, is heard. A timer is set for
/// the time that was asked for, or stopped. A command goes to the worker that it names.
pub proof fn law_workload_requests_are_passed_on(
    ns: NamespaceStateMachine,
    workload_id: WorkloadId,
    output: WorkloadOutput,
    t: Translation,
    u: Translation,
)
    requires
        u == ns.translated(workload_id, output, t),
    ensures
        u.out.pod_requests == (if output is PodRequest {
            t.out.pod_requests.push(PodRequest { workload_id })
        } else {
            t.out.pod_requests
        }),
        u.out.resume_requests == (match output {
            WorkloadOutput::ResumeRequest { artifact_id } => t.out.resume_requests.push(
                ResumeRequest { workload_id, artifact_id },
            ),
            _ => t.out.resume_requests,
        }),
        u.out.timers_set == (match output {
            WorkloadOutput::TimerSet(key, duration_ms) => t.out.timers_set.push(
                TimerRequest { key, duration_ms, band: PressureBand::Normal },
            ),
            _ => t.out.timers_set,
        }),
        u.out.timers_cancel == (match output {
            WorkloadOutput::TimerCancel(key) => t.out.timers_cancel.push(key),
            _ => t.out.timers_cancel,
        }),
        output matches WorkloadOutput::WorkerCommand(worker_id, command) ==> u.out.worker_commands
            == t.out.worker_commands.push((worker_id, command@)),
        u.out.client_events == t.out.client_events,
        u.out.destroyed == t.out.destroyed,
        u.readiness == (match output {
            WorkloadOutput::BecameReady { pod_id, worker_id } => t.readiness.insert(
                workload_id.id(),
                WorkloadReadyInfo { pod_id, worker_id },
            ),
            WorkloadOutput::BecameUnready => t.readiness.remove(workload_id.id()),
            _ => t.readiness,
        }),
{
}

/// A suspension goes to the pod's worker and names that worker's storage pool. Where the worker has
/// none, no command is given, and the workload is told that the suspension failed.
pub proof fn law_suspension_needs_a_pool(
    ns: NamespaceStateMachine,
    workload_id: WorkloadId,
    pod: PodId,
    worker: WorkerId,
    a: ArtifactId,
    t: Translation,
    u: Translation,
)
    requires
        u == ns.translated(
            workload_id,
            WorkloadOutput::SuspendRequest { pod_id: pod, worker_id: worker, artifact_id: a },
            t,
        ),
    ensures
        ns.workers@.contains_key(worker.id()) && ns.workers@[worker.id()].primary_pool_id is Some
            ==> u.failed == t.failed && u.out.worker_commands == t.out.worker_commands.push(
            (
                worker,
                CommandView::SuspendPod {
                    namespace_id: ns.namespace_id,
                    pod_id: pod,
                    artifact_id: a,
                    pool_id: ns.workers@[worker.id()].primary_pool_id.unwrap(),
                },
            ),
        ),
        !(ns.workers@.contains_key(worker.id())
            && ns.workers@[worker.id()].primary_pool_id is Some) ==> {
            &&& u.out.worker_commands == t.out.worker_commands
            &&& ns.workloads@.contains_key(workload_id.id()) ==> u.failed == t.failed.push(
                WorkloadInput::PodSuspendFailed { pod_id: pod },
            )
        },
        u.pods == t.pods,
        u.placements == t.placements,
{
}

/// A pod that a workload has launched or brought back is known from then on, with its workload and
/// its worker. The worker is told to start it with the workload's own address, or to bring it back
/// out of the pool that its snapshot lies in.
pub proof fn law_workload_pods_are_started(
    ns: NamespaceStateMachine,
    workload_id: WorkloadId,
    pod: PodId,
    worker: WorkerId,
    a: ArtifactId,
    t: Translation,
    launch: Translation,
    resume: Translation,
)
    requires
        launch == ns.translated(
            workload_id,
            WorkloadOutput::LaunchRequest { worker_id: worker, pod_id: pod },
            t,
        ),
        resume == ns.translated(
            workload_id,
            WorkloadOutput::ResumeFromArtifact { worker_id: worker, pod_id: pod, artifact_id: a },
            t,
        ),
        ns.spec.workloads@.contains_key(workload_id.id()),
    ensures
        launch.pods == upsert(t.pods, pod, PodInfo { workload_id, worker_id: worker }),
        resume.pods == upsert(t.pods, pod, PodInfo { workload_id, worker_id: worker }),
        launch.out.worker_commands.len() > t.out.worker_commands.len(),
        launch.out.worker_commands[t.out.worker_commands.len() as int].0 == worker,
        launch.out.worker_commands[t.out.worker_commands.len() as int].1 matches
            CommandView::LaunchPod { namespace_id, pod_id, network, containers, .. }
            && namespace_id == ns.namespace_id && pod_id == pod && network.ip
            == ns.spec.workloads@[workload_id.id()].network.ip && network.mac
            == ns.spec.workloads@[workload_id.id()].network.mac && network.gateway
            == ns.spec.network.gateway && network.netmask == dotted(
            mask_of(ns.spec.network.prefix_len),
        ) && containers
            == ns.spec.workloads@[workload_id.id()].containers,
        as_map(t.placements).contains_key(a.id()) ==> {
            &&& resume.out.worker_commands.len() > t.out.worker_commands.len()
            &&& resume.out.worker_commands[t.out.worker_commands.len() as int].0 == worker
            &&& resume.out.worker_commands[t.out.worker_commands.len() as int].1 matches
                CommandView::ResumePod { namespace_id, pod_id, artifact_id, network, pool_id }
                && namespace_id == ns.namespace_id && pod_id == pod && artifact_id == a && pool_id
                == as_map(t.placements)[a.id()].pool_id && network.ip
                == ns.spec.workloads@[workload_id.id()].network.ip && network.mac
                == ns.spec.workloads@[workload_id.id()].network.mac
        },
        !as_map(t.placements).contains_key(a.id()) ==> resume.out == t.out,
{
}

/// A snapshot that a workload gives up is deleted from the worker and the pool that it lies on, and
/// forgotten. One that is not known is left alone.
pub proof fn law_given_up_snapshot_is_deleted(
    ns: NamespaceStateMachine,
    workload_id: WorkloadId,
    a: ArtifactId,
    t: Translation,
    u: Translation,
)
    requires
        u == ns.translated(workload_id, WorkloadOutput::DeleteArtifact { artifact_id: a }, t),
    ensures
        as_map(t.placements).contains_key(a.id()) ==> {
            &&& u.placements == erase(t.placements, a.id())
            &&& u.out.worker_commands == t.out.worker_commands.push(
                (
                    as_map(t.placements)[a.id()].worker_id,
                    CommandView::DeleteArtifact {
                        artifact_id: a,
                        pool_id: as_map(t.placements)[a.id()].pool_id,
                    },
                ),
            )
        },
        !as_map(t.placements).contains_key(a.id()) ==> u == t,
        u.pods == t.pods,
{
}

// ---- putting a workload to sleep ----------------------------------------------------------------

/// The service keeps a workload that could sleep awake: somebody needs its backend.
pub open spec fn keeps_awake(svc: ServiceStateMachine, workload: Seq<char>) -> bool {
    &&& svc.workload_id.id() == workload
    &&& svc.has_activation
    &&& svc.state matches ServiceState::Active { backend_need, .. } && backend_need
        != BackendNeed::Nothing
}

proof fn lemma_first_needed(services: Seq<(ServiceId, ServiceStateMachine)>, workload: Seq<char>)
    ensures
        match first_needed(services, workload) {
            Some((id, need)) => exists|i: int|
                0 <= i < services.len() && (#[trigger] services[i]).0 == id && keeps_awake(
                    services[i].1,
                    workload,
                ) && services[i].1.state->backend_need == need,
            None => forall|i: int|
                0 <= i < services.len() ==> !keeps_awake((#[trigger] services[i]).1, workload),
        },
    decreases services.len(),
{
    if services.len() > 0 {
        let rest = services.drop_first();
        lemma_first_needed(rest, workload);
        if keeps_awake(services[0].1, workload) {
            assert(services[0].0 == first_needed(services, workload).unwrap().0);
        } else {
            match first_needed(rest, workload) {
                Some((id, need)) => {
                    let i = choose|i: int|
                        0 <= i < rest.len() && (#[trigger] rest[i]).0 == id && keeps_awake(
                            rest[i].1,
                            workload,
                        ) && rest[i].1.state->backend_need == need;
                    assert(services[i + 1] == rest[i]);
                },
                None => {
                    assert forall|i: int| 0 <= i < services.len() implies !keeps_awake(
                        (#[trigger] services[i]).1,
                        workload,
                    ) by {
                        if i > 0 {
                            assert(rest[i - 1] == services[i]);
                        }
                    }
                },
            }
        }
    }
}

/// A client that wants a workload put to sleep is told yes exactly if the workload is known, nobody
/// needs a service of it that can be woken, and some such service is active. Then all of these
/// sleep, every worker whose fabric is up is told that they have no backend, and every other service
/// stays as it is.
pub proof fn law_workload_sleeps_unless_needed(
    before: NamespaceStateMachine,
    workload_id: WorkloadId,
    after: NamespaceStateMachine,
    out: OutputView,
    given: OutputView,
    w: WorkerId,
    k: int,
)
    requires
        0 <= k < before.services.seq().len(),
        increasing(before.services.seq()),
        before.services@ == as_map(before.services.seq()),
        before.sleep_refused(workload_id.id()) ==> after == before && given == out,
        !before.sleep_refused(workload_id.id()) ==> before.asleep(
            before.services.seq().len() as int,
            workload_id.id(),
            after,
        ) && given == before.sleep_out(before.services.seq(), workload_id.id(), out),
    ensures
        before.sleep_answer(workload_id) matches ClientEventView::DeactivateWorkloadResult {
            deactivated,
            reason,
        } && (deactivated <==> {
            &&& before.workloads@.contains_key(workload_id.id())
            &&& forall|i: int|
                0 <= i < before.services.seq().len() ==> !keeps_awake(
                    (#[trigger] before.services.seq()[i]).1,
                    workload_id.id(),
                )
            &&& exists|i: int|
                0 <= i < before.services.seq().len() && (
                #[trigger] before.services.seq()[i]).1.state is Active
                    && before.services.seq()[i].1.has_activation
                    && before.services.seq()[i].1.workload_id.id() == workload_id.id()
        }) && (deactivated ==> reason.len() == 0) && (deactivated ==> {
            &&& before.services.seq()[k].1.state is Active
                && before.services.seq()[k].1.has_activation
                && before.services.seq()[k].1.workload_id.id() == workload_id.id() ==> {
                &&& after.services@[before.services.seq()[k].0.id()].state == ServiceState::Idle
                &&& is_up(before, w) ==> given.worker_commands.contains(
                    (
                        w,
                        CommandView::UpdateServiceBackend {
                            namespace_id: before.namespace_id,
                            service_id: before.services.seq()[k].1.service_id,
                            backend: None,
                        },
                    ),
                )
            }
            &&& !(before.services.seq()[k].1.state is Active
                && before.services.seq()[k].1.has_activation
                && before.services.seq()[k].1.workload_id.id() == workload_id.id())
                ==> after.services@[before.services.seq()[k].0.id()] == before.services.seq()[k].1
        }) && (!deactivated ==> forall|i: int|
            0 <= i < before.services.seq().len() ==> after.services@[(
            #[trigger] before.services.seq()[i]).0.id()] == before.services.seq()[i].1),
{
    reveal_strlit("");
    let s = before.services.seq();
    let wl = workload_id.id();
    lemma_first_needed(s, wl);
    if first_needed(s, wl) is Some {
        let i = choose|i: int|
            0 <= i < s.len() && (#[trigger] s[i]).0 == first_needed(s, wl).unwrap().0
                && keeps_awake(s[i].1, wl);
        assert(keeps_awake(s[i].1, wl));
    }
    assert forall|i: int| 0 <= i < s.len() implies before.services@[(#[trigger] s[i]).0.id()]
        == s[i].1 by {
        lemma_position_unique(s, i);
    }
    if before.any_awake(s.len() as int, wl) {
        let i = choose|i: int| 0 <= i < s.len() && is_awake((#[trigger] s[i]).1, wl);
        assert(s[i].1.state is Active && s[i].1.has_activation && s[i].1.workload_id.id() == wl);
    }
    if exists|i: int|
        0 <= i < s.len() && (#[trigger] s[i]).1.state is Active && s[i].1.has_activation
            && s[i].1.workload_id.id() == wl {
        let i = choose|i: int|
            0 <= i < s.len() && (#[trigger] s[i]).1.state is Active && s[i].1.has_activation
                && s[i].1.workload_id.id() == wl;
        assert(is_awake(s[i].1, wl));
        assert(can_sleep(s[i].1, wl));
    }
    if !before.sleep_refused(wl) {
        assert(s[k].0.id() == s[k].0.id());
        if is_awake(s[k].1, wl) && is_up(before, w) {
            lemma_sleep_reaches(before, s, wl, out, k, w);
        }
        assert forall|i: int| 0 <= i < s.len() && !is_awake((#[trigger] s[i]).1, wl) implies
            after.services@[s[i].0.id()] == s[i].1 by {}
    }
}

proof fn lemma_sleep_reaches(
    ns: NamespaceStateMachine,
    services: Seq<(ServiceId, ServiceStateMachine)>,
    workload: Seq<char>,
    out: OutputView,
    k: int,
    w: WorkerId,
)
    requires
        0 <= k < services.len(),
        is_awake(services[k].1, workload),
        is_up(ns, w),
        forall|i: int|
            0 <= i < services.len() ==> ns.services@.contains_key(
                (#[trigger] services[i]).0.id(),
            ) && ns.services@[services[i].0.id()] == services[i].1,
    ensures
        ns.sleep_out(services, workload, out).worker_commands.contains(
            (
                w,
                CommandView::UpdateServiceBackend {
                    namespace_id: ns.namespace_id,
                    service_id: services[k].1.service_id,
                    backend: None,
                },
            ),
        ),
    decreases services.len(),
{
    let front = services.drop_last();
    let last = services.last();
    let rest = ns.sleep_out(front, workload, out);
    let told = rest.with_event(
        EventView::Service {
            service_id: last.0,
            workload_id: last.1.workload_id,
            event: SmServiceEvent::Deactivated {
                reason: ServiceDeactivationReason::ForceDeactivate,
            },
        },
    );
    assert(ns.services@.contains_key(services[services.len() - 1].0.id()));
    if k < front.len() {
        assert(front[k] == services[k]);
        assert forall|i: int| 0 <= i < front.len() implies ns.services@.contains_key(
            (#[trigger] front[i]).0.id(),
        ) && ns.services@[front[i].0.id()] == front[i].1 by {
            assert(front[i] == services[i]);
        }
        lemma_sleep_reaches(ns, front, workload, out, k, w);
    }
    if is_awake(last.1, workload) {
        law_step_tells_workers(
            ns,
            last.0,
            ServiceInput::ForceDeactivate,
            told,
            ns.step_out(last.0, ServiceInput::ForceDeactivate, told),
            w,
        );
    }
}

// ---- conditions ---------------------------------------------------------------------------------

/// A condition that a service sets holds with its message, one that it clears is gone, and no other
/// condition is touched.
pub proof fn law_service_conditions(
    conditions: Seq<(String, String)>,
    outputs: Seq<ServiceOutput>,
    key: String,
    message: String,
)
    requires
        increasing(service_conditions(conditions, outputs)),
    ensures
        as_map(
            service_conditions(
                conditions,
                outputs.push(ServiceOutput::ConditionSet { key, message }),
            ),
        ) == as_map(service_conditions(conditions, outputs)).insert(key@, message),
        as_map(
            service_conditions(conditions, outputs.push(ServiceOutput::ConditionClear { key })),
        ) == as_map(service_conditions(conditions, outputs)).remove(key@),
{
    let set = outputs.push(ServiceOutput::ConditionSet { key, message });
    let clear = outputs.push(ServiceOutput::ConditionClear { key });
    assert(set.drop_last() =~= outputs);
    assert(clear.drop_last() =~= outputs);
    lemma_stays_increasing(service_conditions(conditions, outputs), key, message);
}

/// A condition that a workload of the namespace sets holds with its message, and one that it clears
/// is gone. No other output touches a condition.
pub proof fn law_workload_conditions(
    ns: NamespaceStateMachine,
    workload_id: WorkloadId,
    output: WorkloadOutput,
    t: Translation,
    u: Translation,
)
    requires
        u == ns.translated(workload_id, output, t),
        ns.workloads@.contains_key(workload_id.id()),
        increasing(t.conditions),
    ensures
        output matches WorkloadOutput::ConditionSet { key, message } ==> as_map(u.conditions)
            == as_map(t.conditions).insert(key@, message),
        output matches WorkloadOutput::ConditionClear { key } ==> as_map(u.conditions) == as_map(
            t.conditions,
        ).remove(key@),
        !(output is ConditionSet) && !(output is ConditionClear) ==> u.conditions == t.conditions,
{
    match output {
        WorkloadOutput::ConditionSet { key, message } => {
            lemma_stays_increasing(t.conditions, key, message);
        },
        WorkloadOutput::ConditionClear { key } => {
            lemma_stays_increasing(t.conditions, key, key);
        },
        _ => {},
    }
}

/// A change of demand is reported with the new count, and only a change is.
pub proof fn law_demand_change_is_reported(
    ns: NamespaceStateMachine,
    workload_id: WorkloadId,
    out: OutputView,
    given: OutputView,
)
    requires
        given == ns.demand_out(workload_id, out),
    ensures
        ns.workloads@.contains_key(workload_id.id()) && ns.demand(workload_id.id())
            != ns.workloads@[workload_id.id()].status.current_demand ==> given.events
            == out.events.push(
            EventView::Workload {
                workload_id,
                event: WorkloadEventView::DemandChanged {
                    demanding_services: ns.demand(workload_id.id()) as u32,
                },
            },
        ),
        !ns.workloads@.contains_key(workload_id.id()) || ns.demand(workload_id.id())
            == ns.workloads@[workload_id.id()].status.current_demand ==> given == out,
        given.worker_commands == out.worker_commands,
        given.client_events == out.client_events,
{
}

/// A suspension that could not start goes back to its workload, marked as a second round.
pub proof fn law_failed_suspensions_go_back(
    workload_id: WorkloadId,
    failed: Seq<WorkloadInput>,
    i: int,
)
    requires
        0 <= i < failed.len(),
    ensures
        NamespaceStateMachine::retries(workload_id, failed).len() == failed.len(),
        NamespaceStateMachine::retries(workload_id, failed)[i] == (FollowUp::StepWorkload {
            workload_id,
            input: failed[i],
            retry: true,
        }),
{
}

/// A step of a workload's machine is noted with the workload and with no other.
pub proof fn law_status_is_noted(
    before: NamespaceStateMachine,
    workload: Seq<char>,
    status: WorkloadStatus,
    after: NamespaceStateMachine,
    other: Seq<char>,
)
    requires
        before.noting(workload, status, after),
        before.workloads@.contains_key(workload),
    ensures
        after.workloads@.contains_key(workload),
        after.workloads@[workload].status == status,
        after.workloads@[workload].suspend_on_idle == before.workloads@[workload].suspend_on_idle,
        other != workload && before.workloads@.contains_key(other) ==> after.workloads@[other]
            == before.workloads@[other],
        after.services == before.services,
        after.pod_map == before.pod_map,
{
}

/// What the outputs of a workload change becomes the state of the namespace: its pods, which
/// workloads are ready, and the workload's conditions. Nothing else changes.
pub proof fn law_outputs_are_kept(
    before: NamespaceStateMachine,
    workload: Seq<char>,
    outputs: Seq<WorkloadOutput>,
    workload_id: WorkloadId,
    placements: Seq<(ArtifactId, ArtifactPlacement)>,
    out: OutputView,
    after: NamespaceStateMachine,
    other: Seq<char>,
)
    requires
        before.changed_as(
            workload,
            before.translated_all(
                workload_id,
                outputs,
                before.translation(workload, placements, out),
            ),
            after,
        ),
        before.workloads@.contains_key(workload),
    ensures
        ({
            let t = before.translated_all(
                workload_id,
                outputs,
                before.translation(workload, placements, out),
            );
            &&& after.pod_map.seq() == t.pods
            &&& after.workload_readiness@ == t.readiness
            &&& after.workloads@[workload].conditions.seq() == t.conditions
        }),
        before.translation(workload, placements, out).pods == before.pod_map.seq(),
        before.translation(workload, placements, out).placements == placements,
        before.translation(workload, placements, out).readiness == before.workload_readiness@,
        before.translation(workload, placements, out).conditions
            == before.workloads@[workload].conditions.seq(),
        before.translation(workload, placements, out).out == out,
        before.translation(workload, placements, out).failed.len() == 0,
        after.workloads@[workload].status == before.workloads@[workload].status,
        other != workload && before.workloads@.contains_key(other) ==> after.workloads@[other]
            == before.workloads@[other],
        after.services == before.services,
        after.workers == before.workers,
        after.spec == before.spec,
        after.status == before.status,
{
}

/// What a service asked for changes its conditions and nothing else of it, and no other service.
pub proof fn law_service_conditions_are_kept(
    before: NamespaceStateMachine,
    service: Seq<char>,
    outputs: Seq<ServiceOutput>,
    after: NamespaceStateMachine,
    other: Seq<char>,
)
    requires
        before.with_service_conditions(service, outputs, after),
        before.services@.contains_key(service),
    ensures
        after.services@[service].conditions.seq() == service_conditions(
            before.services@[service].conditions.seq(),
            outputs,
        ),
        after.services@[service].state == before.services@[service].state,
        after.services@[service].workload_id == before.services@[service].workload_id,
        other != service && before.services@.contains_key(other) ==> after.services@[other]
            == before.services@[other],
        after.workloads == before.workloads,
{
}

/// A pod that a workload has launched or brought back is made known: every worker whose fabric is up
/// learns where the workload's address leads now, and the start is reported.
pub proof fn law_started_pods_are_made_known(
    ns: NamespaceStateMachine,
    workload_id: WorkloadId,
    pod: PodId,
    worker: WorkerId,
    a: ArtifactId,
    t: Translation,
    launch: Translation,
    resume: Translation,
    w: WorkerId,
)
    requires
        launch == ns.translated(
            workload_id,
            WorkloadOutput::LaunchRequest { worker_id: worker, pod_id: pod },
            t,
        ),
        resume == ns.translated(
            workload_id,
            WorkloadOutput::ResumeFromArtifact { worker_id: worker, pod_id: pod, artifact_id: a },
            t,
        ),
        ns.spec.workloads@.contains_key(workload_id.id()),
        as_map(t.placements).contains_key(a.id()),
        is_up(ns, w),
    ensures
        launch.out.worker_commands.contains(
            (
                w,
                CommandView::EndpointUpdate {
                    namespace_id: ns.namespace_id,
                    upserted: seq![
                        EndpointSpec {
                            ip: ns.spec.workloads@[workload_id.id()].network.ip,
                            kind: EndpointKind::Pod {
                                placement: placement_of(launch.pods, workload_id.id()),
                            },
                        },
                    ],
                    removed_ips: seq![],
                },
            ),
        ),
        resume.out.worker_commands.contains(
            (
                w,
                CommandView::EndpointUpdate {
                    namespace_id: ns.namespace_id,
                    upserted: seq![
                        EndpointSpec {
                            ip: ns.spec.workloads@[workload_id.id()].network.ip,
                            kind: EndpointKind::Pod {
                                placement: placement_of(resume.pods, workload_id.id()),
                            },
                        },
                    ],
                    removed_ips: seq![],
                },
            ),
        ),
        launch.out.events == t.out.events.push(
            EventView::Workload {
                workload_id,
                event: WorkloadEventView::PodLaunching { pod_id: pod, worker_id: worker },
            },
        ),
        resume.out.events == t.out.events.push(
            EventView::Workload {
                workload_id,
                event: WorkloadEventView::PodResuming { pod_id: pod, worker_id: worker },
            },
        ),
{
    let c = ns.endpoint_update(ns.workload_endpoint_in(launch.pods, workload_id.id()));
    lemma_broadcast(ns, c, w, c);
    let first = (worker, ns.launch_command(workload_id.id(), pod));
    lemma_contains_either(t.out.worker_commands.push(first), ns.broadcast(c), (w, c));
    let second = (
        worker,
        CommandView::ResumePod {
            namespace_id: ns.namespace_id,
            pod_id: pod,
            artifact_id: a,
            network: ns.pod_network(workload_id.id()),
            pool_id: as_map(t.placements)[a.id()].pool_id,
        },
    );
    lemma_contains_either(t.out.worker_commands.push(second), ns.broadcast(c), (w, c));
}

} // verus!
