//! The lifecycle of a service: idle, waiting for a backend, active.
use vstd::prelude::*;

use crate::ids::{NamespaceId, PodId, ServiceId, WorkerId, WorkloadId};
use crate::sorted_map::{Key, SortedMap};
use crate::types::{BackendNeed, ServiceBackend, TimerKey, WorkerCommand};

verus! {

/// Where a service stands.
#[derive(Debug, PartialEq, Eq)]
pub enum ServiceState {
    /// Not started yet.
    Pending,
    /// Asleep: the next activation wakes it.
    Idle,
    /// Wants a backend and has none.
    NeedBackend,
    /// Served by a pod.
    Active {
        pod_id: PodId,
        worker_id: WorkerId,
        backend_need: BackendNeed,
        idle_timer: Option<TimerKey>,
    },
}

impl Clone for ServiceState {
    fn clone(&self) -> (r: Self)
        ensures
            r == *self,
    {
        match self {
            ServiceState::Pending => ServiceState::Pending,
            ServiceState::Idle => ServiceState::Idle,
            ServiceState::NeedBackend => ServiceState::NeedBackend,
            ServiceState::Active { pod_id, worker_id, backend_need, idle_timer } => {
                ServiceState::Active {
                    pod_id: pod_id.clone(),
                    worker_id: worker_id.clone(),
                    backend_need: *backend_need,
                    idle_timer: match idle_timer {
                        Some(k) => Some(k.clone()),
                        None => None,
                    },
                }
            },
        }
    }
}

impl ServiceState {
    /// The name of the state.
    pub open spec fn name(self) -> Seq<char> {
        match self {
            ServiceState::Pending => "pending"@,
            ServiceState::Idle => "idle"@,
            ServiceState::NeedBackend => "need_backend"@,
            ServiceState::Active { .. } => "active"@,
        }
    }

    /// The name of the state.
    pub fn as_str(&self) -> (r: &'static str)
        ensures
            r@ == self.name(),
    {
        match self {
            ServiceState::Pending => "pending",
            ServiceState::Idle => "idle",
            ServiceState::NeedBackend => "need_backend",
            ServiceState::Active { .. } => "active",
        }
    }
}

/// Why a service woke up.
#[derive(Debug, Clone, Copy, PartialEq, Eq, Structural)]
pub enum ServiceActivationTrigger {
    Traffic,
}

/// Why an idle timer was stopped.
#[derive(Debug, Clone, Copy, PartialEq, Eq, Structural)]
pub enum IdleTimerCancelReason {
    NewTraffic,
}

/// Why a service went to sleep.
#[derive(Debug, Clone, Copy, PartialEq, Eq, Structural)]
pub enum ServiceDeactivationReason {
    IdleTimeout,
    ForceDeactivate,
}

/// What happens to a service.
#[derive(Debug, PartialEq)]
pub enum ServiceInput {
    WorkloadReady { pod_id: PodId, worker_id: WorkerId, backend: ServiceBackend },
    WorkloadUnready,
    ServiceActivation,
    ServiceBackendNeed { need: BackendNeed },
    TimerFired { timer_key: TimerKey },
    ForceDeactivate,
}

/// What a service asks for.
#[derive(Debug, PartialEq)]
pub enum ServiceOutput {
    DemandUp,
    DemandDown,
    WorkerCommand(WorkerId, WorkerCommand),
    /// For every active worker.
    BroadcastWorkerCommand(WorkerCommand),
    TimerSet(TimerKey, u64),
    TimerCancel(TimerKey),
    EndpointChanged,
    ConditionSet { key: String, message: String },
    ConditionClear { key: String },
    IdleTimerStarted { timeout_ms: u64 },
    IdleTimerCancelled { reason: IdleTimerCancelReason },
    IdleTimeoutFired,
    Deactivated { reason: ServiceDeactivationReason },
    Activated { trigger: ServiceActivationTrigger },
    BackendReady,
}

/// One service of a namespace.
pub struct ServiceStateMachine {
    pub service_id: ServiceId,
    pub state: ServiceState,
    pub workload_id: WorkloadId,
    pub has_activation: bool,
    pub idle_timeout_ms: u64,
    pub conditions: SortedMap<String, String>,
}

impl ServiceStateMachine {
    pub fn new(
        service_id: ServiceId,
        workload_id: WorkloadId,
        has_activation: bool,
        idle_timeout_ms: u64,
    ) -> (r: Self)
        ensures
            r.service_id == service_id,
            r.state == ServiceState::Pending,
            r.workload_id == workload_id,
            r.has_activation == has_activation,
            r.idle_timeout_ms == idle_timeout_ms,
            r.conditions@ == Map::<Seq<char>, String>::empty(),
            r.well_formed(),
    {
        ServiceStateMachine {
            service_id,
            state: ServiceState::Pending,
            workload_id,
            has_activation,
            idle_timeout_ms,
            conditions: SortedMap::new(),
        }
    }

    /// The key of this service's idle timer.
    pub open spec fn idle_key(self) -> TimerKey {
        TimerKey::IdleTimeout { service_id: self.service_id }
    }

    /// An idle timer runs exactly while an activated service has no need of its backend.
    pub open spec fn well_formed(self) -> bool {
        self.state matches ServiceState::Active { backend_need, idle_timer, .. } ==> idle_timer
            == if self.has_activation && backend_need == BackendNeed::Nothing {
            Some(self.idle_key())
        } else {
            None
        }
    }

    /// The input makes the service fall asleep at its idle timer.
    pub open spec fn expires(self, timer_key: TimerKey) -> bool {
        self.has_activation && (self.state matches ServiceState::Active {
            backend_need,
            idle_timer,
            ..
        } && backend_need == BackendNeed::Nothing && idle_timer is Some
            && idle_timer.unwrap().alike(timer_key))
    }

    /// The state after an input.
    pub open spec fn next_state(self, input: ServiceInput) -> ServiceState {
        match input {
            ServiceInput::WorkloadReady { pod_id, worker_id, backend } => {
                if self.state is NeedBackend || self.state is Pending {
                    ServiceState::Active {
                        pod_id,
                        worker_id,
                        backend_need: BackendNeed::Active,
                        idle_timer: None,
                    }
                } else {
                    self.state
                }
            },
            ServiceInput::WorkloadUnready => {
                if self.state is Active || self.state is NeedBackend {
                    if self.has_activation {
                        ServiceState::Idle
                    } else {
                        ServiceState::NeedBackend
                    }
                } else {
                    self.state
                }
            },
            ServiceInput::ServiceActivation => {
                if self.state is Idle {
                    ServiceState::NeedBackend
                } else {
                    self.state
                }
            },
            ServiceInput::ServiceBackendNeed { need } => {
                match self.state {
                    ServiceState::Active { pod_id, worker_id, idle_timer, .. } => {
                        ServiceState::Active {
                            pod_id,
                            worker_id,
                            backend_need: need,
                            idle_timer: if need != BackendNeed::Nothing {
                                None
                            } else if self.has_activation && idle_timer is None {
                                Some(self.idle_key())
                            } else {
                                idle_timer
                            },
                        }
                    },
                    _ => self.state,
                }
            },
            ServiceInput::TimerFired { timer_key } => {
                if self.expires(timer_key) {
                    ServiceState::Idle
                } else {
                    self.state
                }
            },
            ServiceInput::ForceDeactivate => {
                if self.state is Active && self.has_activation {
                    ServiceState::Idle
                } else {
                    self.state
                }
            },
        }
    }

    /// The command that points the service at a backend, or at none.
    pub open spec fn backend_command(
        self,
        namespace_id: NamespaceId,
        backend: Option<ServiceBackend>,
    ) -> ServiceOutput {
        ServiceOutput::BroadcastWorkerCommand(
            WorkerCommand::UpdateServiceBackend {
                namespace_id,
                service_id: self.service_id,
                backend,
            },
        )
    }

    /// The cancellation of the idle timer, if it runs.
    pub open spec fn timer_stop(self) -> Seq<ServiceOutput> {
        match self.state {
            ServiceState::Active { idle_timer: Some(key), .. } => seq![
                ServiceOutput::TimerCancel(key),
            ],
            _ => seq![],
        }
    }

    /// What the service asks for on an input.
    pub open spec fn outputs(self, input: ServiceInput, namespace_id: NamespaceId) -> Seq<
        ServiceOutput,
    > {
        match input {
            ServiceInput::WorkloadReady { pod_id, worker_id, backend } => {
                if self.state is NeedBackend || self.state is Pending {
                    seq![
                        self.backend_command(namespace_id, Some(backend)),
                        ServiceOutput::BroadcastWorkerCommand(
                            WorkerCommand::ServiceReady {
                                namespace_id,
                                service_id: self.service_id,
                            },
                        ),
                    ]
                } else {
                    seq![]
                }
            },
            ServiceInput::WorkloadUnready => {
                let down = if self.has_activation {
                    seq![ServiceOutput::DemandDown]
                } else {
                    seq![]
                };
                if self.state is Active {
                    self.timer_stop() + seq![self.backend_command(namespace_id, None)] + down
                } else if self.state is NeedBackend {
                    down
                } else {
                    seq![]
                }
            },
            ServiceInput::ServiceActivation => {
                if self.state is Idle {
                    seq![ServiceOutput::DemandUp]
                } else {
                    seq![]
                }
            },
            ServiceInput::ServiceBackendNeed { need } => {
                match self.state {
                    ServiceState::Active { idle_timer, .. } => {
                        if need != BackendNeed::Nothing {
                            self.timer_stop()
                        } else if self.has_activation && idle_timer is None {
                            seq![ServiceOutput::TimerSet(self.idle_key(), self.idle_timeout_ms)]
                        } else {
                            seq![]
                        }
                    },
                    _ => seq![],
                }
            },
            ServiceInput::TimerFired { timer_key } => {
                if self.expires(timer_key) {
                    seq![
                        ServiceOutput::DemandDown,
                        self.backend_command(namespace_id, None),
                    ]
                } else {
                    seq![]
                }
            },
            ServiceInput::ForceDeactivate => {
                if self.state is Active && self.has_activation {
                    self.timer_stop() + seq![
                        ServiceOutput::DemandDown,
                        self.backend_command(namespace_id, None),
                    ]
                } else {
                    seq![]
                }
            },
        }
    }

    /// Takes one input.
    pub fn step(&mut self, input: ServiceInput, namespace_id: &NamespaceId) -> (r: Vec<ServiceOutput>)
        ensures
            final(self).state == old(self).next_state(input),
            r@ == old(self).outputs(input, *namespace_id),
            final(self).service_id == old(self).service_id,
            final(self).workload_id == old(self).workload_id,
            final(self).has_activation == old(self).has_activation,
            final(self).idle_timeout_ms == old(self).idle_timeout_ms,
            final(self).conditions == old(self).conditions,
    {
        let ghost before = *self;
        let mut outputs: Vec<ServiceOutput> = Vec::new();
        match input {
            ServiceInput::WorkloadReady { pod_id, worker_id, backend } => {
                match &self.state {
                    ServiceState::NeedBackend | ServiceState::Pending => {
                        self.state =
                        ServiceState::Active {
                            pod_id,
                            worker_id,
                            backend_need: BackendNeed::Active,
                            idle_timer: None,
                        };
                        outputs.push(self.backend_output(namespace_id, Some(backend)));
                        outputs.push(
                            ServiceOutput::BroadcastWorkerCommand(
                                WorkerCommand::ServiceReady {
                                    namespace_id: namespace_id.clone(),
                                    service_id: self.service_id.clone(),
                                },
                            ),
                        );
                    },
                    _ => {},
                }
            },
            ServiceInput::WorkloadUnready => {
                match &self.state {
                    ServiceState::Active { idle_timer, .. } => {
                        if let Some(key) = idle_timer {
                            outputs.push(ServiceOutput::TimerCancel(key.clone()));
                        }
                        outputs.push(self.backend_output(namespace_id, None));
                        if self.has_activation {
                            self.state = ServiceState::Idle;
                            outputs.push(ServiceOutput::DemandDown);
                        } else {
                            // Always on: the workload will be tried again.
                            self.state = ServiceState::NeedBackend;
                        }
                    },
                    ServiceState::NeedBackend => {
                        if self.has_activation {
                            self.state = ServiceState::Idle;
                            outputs.push(ServiceOutput::DemandDown);
                        }
                    },
                    _ => {},
                }
            },
            ServiceInput::ServiceActivation => {
                if let ServiceState::Idle = &self.state {
                    self.state = ServiceState::NeedBackend;
                    outputs.push(ServiceOutput::DemandUp);
                }
            },
            ServiceInput::ServiceBackendNeed { need } => {
                if let ServiceState::Active { pod_id, worker_id, idle_timer, .. } = &self.state {
                    let timer: Option<TimerKey> = match need {
                        BackendNeed::Nothing => {
                            match idle_timer {
                                Some(key) => Some(key.clone()),
                                None => {
                                    if self.has_activation {
                                        let key = TimerKey::IdleTimeout {
                                            service_id: self.service_id.clone(),
                                        };
                                        outputs.push(
                                            ServiceOutput::TimerSet(
                                                key.clone(),
                                                self.idle_timeout_ms,
                                            ),
                                        );
                                        Some(key)
                                    } else {
                                        None
                                    }
                                },
                            }
                        },
                        BackendNeed::Traffic | BackendNeed::Active => {
                            if let Some(key) = idle_timer {
                                outputs.push(ServiceOutput::TimerCancel(key.clone()));
                            }
                            None
                        },
                    };
                    self.state =
                    ServiceState::Active {
                        pod_id: pod_id.clone(),
                        worker_id: worker_id.clone(),
                        backend_need: need,
                        idle_timer: timer,
                    };
                }
            },
            ServiceInput::TimerFired { timer_key } => {
                let mut expired: bool = false;
                if let ServiceState::Active { idle_timer: Some(key), backend_need, .. } = &self.state {
                    expired = key.same(&timer_key) && *backend_need == BackendNeed::Nothing
                        && self.has_activation;
                }
                if expired {
                    outputs.push(ServiceOutput::DemandDown);
                    outputs.push(self.backend_output(namespace_id, None));
                    self.state = ServiceState::Idle;
                }
            },
            ServiceInput::ForceDeactivate => {
                let mut active: bool = false;
                if let ServiceState::Active { idle_timer, .. } = &self.state {
                    if self.has_activation {
                        active = true;
                        if let Some(key) = idle_timer {
                            outputs.push(ServiceOutput::TimerCancel(key.clone()));
                        }
                    }
                }
                if active {
                    outputs.push(ServiceOutput::DemandDown);
                    outputs.push(self.backend_output(namespace_id, None));
                    self.state = ServiceState::Idle;
                }
            },
        }
        assert(outputs@ =~= before.outputs(input, *namespace_id));
        outputs
    }

    fn backend_output(&self, namespace_id: &NamespaceId, backend: Option<ServiceBackend>) -> (r:
        ServiceOutput)
        ensures
            r == self.backend_command(*namespace_id, backend),
    {
        ServiceOutput::BroadcastWorkerCommand(
            WorkerCommand::UpdateServiceBackend {
                namespace_id: namespace_id.clone(),
                service_id: self.service_id.clone(),
                backend,
            },
        )
    }

    /// The service counts as demand for its workload.
    pub open spec fn wanting(self) -> bool {
        self.state is NeedBackend || self.state is Active
    }

    /// Whether the service counts as demand for its workload.
    pub fn wants_backend(&self) -> (r: bool)
        ensures
            r == self.wanting(),
    {
        match &self.state {
            ServiceState::NeedBackend => true,
            ServiceState::Active { .. } => true,
            _ => false,
        }
    }

    /// The worker that serves the service now.
    pub open spec fn serving_worker(self) -> Option<WorkerId> {
        match self.state {
            ServiceState::Active { worker_id, .. } => Some(worker_id),
            _ => None,
        }
    }

    /// The worker that serves the service now.
    pub fn active_worker_id(&self) -> (r: Option<&WorkerId>)
        ensures
            r matches Some(w) ==> self.serving_worker() == Some(*w),
            r is None ==> self.serving_worker() is None,
    {
        match &self.state {
            ServiceState::Active { worker_id, .. } => Some(worker_id),
            _ => None,
        }
    }
}

/// Every input keeps the rule about idle timers.
pub proof fn law_step_keeps_idle_timer_rule(
    before: ServiceStateMachine,
    after: ServiceStateMachine,
    input: ServiceInput,
)
    requires
        before.well_formed(),
        after.state == before.next_state(input),
        after.service_id == before.service_id,
        after.has_activation == before.has_activation,
    ensures
        after.well_formed(),
{
}

/// Demand is raised exactly when a service leaves its sleep and dropped exactly when it falls asleep.
pub proof fn law_demand_follows_sleep(
    service: ServiceStateMachine,
    input: ServiceInput,
    namespace_id: NamespaceId,
)
    ensures
        service.outputs(input, namespace_id).contains(ServiceOutput::DemandUp) <==> (
        service.state is Idle && !(service.next_state(input) is Idle)),
        service.outputs(input, namespace_id).contains(ServiceOutput::DemandDown) <==> (!(
        service.state is Idle) && service.next_state(input) is Idle),
{
    let out = service.outputs(input, namespace_id);
    if service.state is Idle && !(service.next_state(input) is Idle) {
        assert(out[0] == ServiceOutput::DemandUp);
    }
    if !(service.state is Idle) && service.next_state(input) is Idle {
        let n = service.timer_stop().len();
        match input {
            ServiceInput::WorkloadUnready => {
                assert(out.last() == ServiceOutput::DemandDown);
            },
            ServiceInput::TimerFired { .. } => {
                assert(out[0] == ServiceOutput::DemandDown);
            },
            ServiceInput::ForceDeactivate => {
                assert(out[n as int] == ServiceOutput::DemandDown);
            },
            _ => {},
        }
    }
}

/// A service without activation never falls asleep.
pub proof fn law_always_on_never_sleeps(service: ServiceStateMachine, input: ServiceInput)
    requires
        !service.has_activation,
        !(service.state is Idle),
    ensures
        !(service.next_state(input) is Idle),
{
}

/// Telling a service twice that its workload is ready, or twice that it is not, is as telling it
/// once: the second time nothing changes and nothing is asked for.
pub proof fn law_readiness_told_twice(
    service: ServiceStateMachine,
    input: ServiceInput,
    namespace_id: NamespaceId,
)
    requires
        input is WorkloadReady || input is WorkloadUnready,
    ensures
        ({
            let once = ServiceStateMachine { state: service.next_state(input), ..service };
            &&& once.next_state(input) == once.state
            &&& once.outputs(input, namespace_id) == Seq::<ServiceOutput>::empty()
        }),
{
    let once = ServiceStateMachine { state: service.next_state(input), ..service };
    assert(once.outputs(input, namespace_id) =~= Seq::<ServiceOutput>::empty());
}

/// An idle timer that is set runs, and one that is cancelled ran before and runs no more.
pub proof fn law_timer_requests_match_state(
    service: ServiceStateMachine,
    input: ServiceInput,
    namespace_id: NamespaceId,
    key: TimerKey,
)
    ensures
        service.outputs(input, namespace_id).contains(
            ServiceOutput::TimerSet(key, service.idle_timeout_ms),
        ) ==> (service.next_state(input) matches ServiceState::Active { idle_timer, .. }
            && idle_timer == Some(key)),
        service.outputs(input, namespace_id).contains(ServiceOutput::TimerCancel(key)) ==> (
        service.state matches ServiceState::Active { idle_timer, .. } && idle_timer == Some(key))
            && (service.next_state(input) matches ServiceState::Active { idle_timer, .. }
            ==> idle_timer is None),
{
}

/// A service that waits for a backend and is told of one is served by it from then on, and tells
/// every worker so: where the backend is, and that the service is ready.
pub proof fn law_ready_backend_is_announced(
    before: ServiceStateMachine,
    after: ServiceStateMachine,
    ns: NamespaceId,
    out: Seq<ServiceOutput>,
    pod: PodId,
    worker: WorkerId,
    b: ServiceBackend,
)
    requires
        before.state is NeedBackend || before.state is Pending,
        after.state == before.next_state(
            ServiceInput::WorkloadReady { pod_id: pod, worker_id: worker, backend: b },
        ),
        out == before.outputs(
            ServiceInput::WorkloadReady { pod_id: pod, worker_id: worker, backend: b },
            ns,
        ),
    ensures
        after.state == (ServiceState::Active {
            pod_id: pod,
            worker_id: worker,
            backend_need: BackendNeed::Active,
            idle_timer: None,
        }),
        out.contains(
            ServiceOutput::BroadcastWorkerCommand(
                WorkerCommand::UpdateServiceBackend {
                    namespace_id: ns,
                    service_id: before.service_id,
                    backend: Some(b),
                },
            ),
        ),
        out.contains(
            ServiceOutput::BroadcastWorkerCommand(
                WorkerCommand::ServiceReady { namespace_id: ns, service_id: before.service_id },
            ),
        ),
{
    assert(out[0] == ServiceOutput::BroadcastWorkerCommand(
        WorkerCommand::UpdateServiceBackend {
            namespace_id: ns,
            service_id: before.service_id,
            backend: Some(b),
        },
    ));
    assert(out[1] == ServiceOutput::BroadcastWorkerCommand(
        WorkerCommand::ServiceReady { namespace_id: ns, service_id: before.service_id },
    ));
}

/// What a service tells the workers goes to all of them and is on this service. A backend is told
/// of when the service becomes active, and it is the one that the service was told of. That there
/// is none is told exactly when the service leaves its active state. Readiness is told only on
/// becoming active.
pub proof fn law_backend_told_matches_state(
    before: ServiceStateMachine,
    after: ServiceStateMachine,
    input: ServiceInput,
    ns: NamespaceId,
    out: Seq<ServiceOutput>,
)
    requires
        after.state == before.next_state(input),
        out == before.outputs(input, ns),
    ensures
        forall|i: int|
            0 <= i < out.len() ==> !((#[trigger] out[i]) is WorkerCommand) && (out[i] matches
                ServiceOutput::BroadcastWorkerCommand(command) ==> match command {
                WorkerCommand::UpdateServiceBackend { namespace_id, service_id, backend: Some(b) }
                    => {
                    &&& namespace_id == ns && service_id == before.service_id
                    &&& after.state is Active && !(before.state is Active)
                    &&& input matches ServiceInput::WorkloadReady { backend, .. } && backend == b
                },
                WorkerCommand::UpdateServiceBackend { namespace_id, service_id, backend: None }
                    => {
                    &&& namespace_id == ns && service_id == before.service_id
                    &&& before.state is Active && !(after.state is Active)
                },
                WorkerCommand::ServiceReady { namespace_id, service_id } => {
                    &&& namespace_id == ns && service_id == before.service_id
                    &&& after.state is Active && !(before.state is Active)
                },
                _ => false,
            }),
        before.state is Active && !(after.state is Active) ==> out.contains(
            ServiceOutput::BroadcastWorkerCommand(
                WorkerCommand::UpdateServiceBackend {
                    namespace_id: ns,
                    service_id: before.service_id,
                    backend: None,
                },
            ),
        ),
{
    if before.state is Active && !(after.state is Active) {
        let n = match before.state {
            ServiceState::Active { idle_timer: Some(_), .. } => 1int,
            _ => 0int,
        };
        let i = match input {
            ServiceInput::WorkloadUnready => n,
            ServiceInput::ForceDeactivate => n + 1,
            _ => 1,
        };
        assert(out[i] == ServiceOutput::BroadcastWorkerCommand(
            WorkerCommand::UpdateServiceBackend {
                namespace_id: ns,
                service_id: before.service_id,
                backend: None,
            },
        ));
    }
}

/// When a service changes its state. It becomes active only when it waits for a backend and is told
/// of one. Traffic wakes a service that sleeps. It falls asleep only where it can be woken: when its
/// workload is no longer ready, when it is told to, or when its own idle timer ends while nobody
/// needs its backend. A service that cannot be woken waits for a new backend instead.
pub proof fn law_state_changes(
    before: ServiceStateMachine,
    after: ServiceStateMachine,
    input: ServiceInput,
)
    requires
        before.well_formed(),
        after.state == before.next_state(input),
    ensures
        after.state is Pending ==> before.state is Pending,
        after.state is Active && !(before.state is Active) <==> input is WorkloadReady && (
        before.state is NeedBackend || before.state is Pending),
        before.state is Idle && after.state != before.state <==> before.state is Idle
            && input is ServiceActivation,
        before.state is Idle && after.state != before.state ==> after.state is NeedBackend,
        after.state is Idle && !(before.state is Idle) <==> before.has_activation && match input {
            ServiceInput::WorkloadUnready => before.state is Active || before.state is NeedBackend,
            ServiceInput::ForceDeactivate => before.state is Active,
            ServiceInput::TimerFired { timer_key } => {
                &&& before.state matches ServiceState::Active { backend_need, .. } && backend_need
                    == BackendNeed::Nothing
                &&& timer_key matches TimerKey::IdleTimeout { service_id } && service_id.id()
                    == before.service_id.id()
            },
            _ => false,
        },
        before.state is Active && after.state is NeedBackend <==> before.state is Active
            && input is WorkloadUnready && !before.has_activation,
{
}

/// While a service is active, its pod stays. The need for the backend is the last one told. The
/// idle timer starts with the service's own timeout when the need ends, stops when there is need
/// again, and does not outlast the active state.
pub proof fn law_need_runs_idle_timer(
    before: ServiceStateMachine,
    after: ServiceStateMachine,
    input: ServiceInput,
    ns: NamespaceId,
    out: Seq<ServiceOutput>,
)
    requires
        before.well_formed(),
        after.state == before.next_state(input),
        out == before.outputs(input, ns),
        before.state is Active,
    ensures
        after.state matches ServiceState::Active { pod_id, worker_id, backend_need, .. } ==> {
            &&& pod_id == before.state->pod_id
            &&& worker_id == before.state->worker_id
            &&& backend_need == (match input {
                ServiceInput::ServiceBackendNeed { need } => need,
                _ => before.state->backend_need,
            })
        },
        before.has_activation && before.state->backend_need != BackendNeed::Nothing && input == (
        ServiceInput::ServiceBackendNeed { need: BackendNeed::Nothing }) ==> out == seq![
            ServiceOutput::TimerSet(
                TimerKey::IdleTimeout { service_id: before.service_id },
                before.idle_timeout_ms,
            ),
        ],
        before.has_activation && before.state->backend_need == BackendNeed::Nothing && (match input {
            ServiceInput::ServiceBackendNeed { need } => need != BackendNeed::Nothing,
            ServiceInput::WorkloadUnready => true,
            ServiceInput::ForceDeactivate => true,
            _ => false,
        }) ==> out.contains(
            ServiceOutput::TimerCancel(TimerKey::IdleTimeout { service_id: before.service_id }),
        ),
        !before.has_activation ==> forall|i: int|
            0 <= i < out.len() ==> !((#[trigger] out[i]) is TimerSet) && !(out[i] is TimerCancel),
{
    if before.has_activation && before.state->backend_need != BackendNeed::Nothing && input == (
    ServiceInput::ServiceBackendNeed { need: BackendNeed::Nothing }) {
        assert(out =~= seq![
            ServiceOutput::TimerSet(
                TimerKey::IdleTimeout { service_id: before.service_id },
                before.idle_timeout_ms,
            ),
        ]);
    }
    if before.has_activation && before.state->backend_need == BackendNeed::Nothing && out.len() > 0 {
        if !(input is TimerFired) {
            assert(out[0] == ServiceOutput::TimerCancel(
                TimerKey::IdleTimeout { service_id: before.service_id },
            ));
        }
    }
}

} // verus!
