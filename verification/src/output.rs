//! What a namespace gives out: commands, client events, timers, requests, observed events.
use vstd::prelude::*;

use crate::ids::{ArtifactId, ClientId, NamespaceId, PodId, ServiceId, WorkerId, WorkloadId};
use crate::service::{IdleTimerCancelReason, ServiceActivationTrigger, ServiceDeactivationReason};
use crate::types::{BackendNeed, CommandView, NamespaceStatus, PressureBand, TimerKey, WorkerCommand};

verus! {

// ---- observed events ------------------------------------------------------------------------

/// What happened to a workload.
#[derive(Debug, PartialEq, Eq)]
pub enum SmWorkloadEvent {
    DemandChanged { demanding_services: u32 },
    PodLaunching { pod_id: PodId, worker_id: WorkerId },
    PodRunning { pod_id: PodId, worker_id: WorkerId },
    PodStopped { exit_code: i32 },
    PodFailed { reason: String },
    PodSuspending { pod_id: PodId, worker_id: WorkerId },
    PodSuspended { worker_id: WorkerId, artifact_id: ArtifactId },
    PodSuspendFailed { reason: String },
    PodResuming { pod_id: PodId, worker_id: WorkerId },
}

/// What happened to a service.
#[derive(Debug, Clone, Copy, PartialEq, Eq, Structural)]
pub enum SmServiceEvent {
    Activated { trigger: ServiceActivationTrigger },
    BackendReady,
    IdleTimerStarted { timeout_ms: u64 },
    IdleTimerCancelled { reason: IdleTimerCancelReason },
    IdleTimeoutFired,
    Deactivated { reason: ServiceDeactivationReason },
}

/// What happened in a namespace.
#[derive(Debug, PartialEq, Eq)]
pub enum SmNamespaceEvent {
    Workload { workload_id: WorkloadId, event: SmWorkloadEvent },
    Service { service_id: ServiceId, workload_id: WorkloadId, event: SmServiceEvent },
}

/// A workload event with its texts as characters.
pub enum WorkloadEventView {
    DemandChanged { demanding_services: u32 },
    PodLaunching { pod_id: PodId, worker_id: WorkerId },
    PodRunning { pod_id: PodId, worker_id: WorkerId },
    PodStopped { exit_code: i32 },
    PodFailed { reason: Seq<char> },
    PodSuspending { pod_id: PodId, worker_id: WorkerId },
    PodSuspended { worker_id: WorkerId, artifact_id: ArtifactId },
    PodSuspendFailed { reason: Seq<char> },
    PodResuming { pod_id: PodId, worker_id: WorkerId },
}

impl SmWorkloadEvent {
    pub open spec fn view(&self) -> WorkloadEventView {
        match *self {
            SmWorkloadEvent::DemandChanged { demanding_services } => {
                WorkloadEventView::DemandChanged { demanding_services }
            },
            SmWorkloadEvent::PodLaunching { pod_id, worker_id } => WorkloadEventView::PodLaunching {
                pod_id,
                worker_id,
            },
            SmWorkloadEvent::PodRunning { pod_id, worker_id } => WorkloadEventView::PodRunning {
                pod_id,
                worker_id,
            },
            SmWorkloadEvent::PodStopped { exit_code } => WorkloadEventView::PodStopped { exit_code },
            SmWorkloadEvent::PodFailed { reason } => WorkloadEventView::PodFailed {
                reason: reason@,
            },
            SmWorkloadEvent::PodSuspending { pod_id, worker_id } => {
                WorkloadEventView::PodSuspending { pod_id, worker_id }
            },
            SmWorkloadEvent::PodSuspended { worker_id, artifact_id } => {
                WorkloadEventView::PodSuspended { worker_id, artifact_id }
            },
            SmWorkloadEvent::PodSuspendFailed { reason } => WorkloadEventView::PodSuspendFailed {
                reason: reason@,
            },
            SmWorkloadEvent::PodResuming { pod_id, worker_id } => WorkloadEventView::PodResuming {
                pod_id,
                worker_id,
            },
        }
    }
}

pub enum EventView {
    Workload { workload_id: WorkloadId, event: WorkloadEventView },
    Service { service_id: ServiceId, workload_id: WorkloadId, event: SmServiceEvent },
}

impl SmNamespaceEvent {
    pub open spec fn view(&self) -> EventView {
        match *self {
            SmNamespaceEvent::Workload { workload_id, event } => EventView::Workload {
                workload_id,
                event: event@,
            },
            SmNamespaceEvent::Service { service_id, workload_id, event } => EventView::Service {
                service_id,
                workload_id,
                event,
            },
        }
    }
}

// ---- reports --------------------------------------------------------------------------------

#[derive(Debug, Clone, Copy, PartialEq, Eq, Structural)]
pub enum PodStatus {
    Launching,
    Running,
}

#[derive(Debug, PartialEq, Eq)]
pub struct WorkloadStatusReport {
    pub state: String,
    pub pod_id: Option<PodId>,
    pub conditions: Vec<(String, String)>,
}

#[derive(Debug, PartialEq, Eq)]
pub struct ServiceStatusReport {
    pub workload_id: WorkloadId,
    pub service_state: String,
    pub workload_state: String,
    pub pod_id: Option<PodId>,
    pub worker_id: Option<WorkerId>,
    pub backend_need: Option<BackendNeed>,
    pub activation_enabled: bool,
    pub ip: String,
    pub workload_conditions: Vec<(String, String)>,
    pub service_conditions: Vec<(String, String)>,
}

#[derive(Debug, PartialEq, Eq)]
pub struct PodStatusReport {
    pub pod_id: PodId,
    pub workload_id: WorkloadId,
    pub worker_id: WorkerId,
    pub ip: String,
    pub state: PodStatus,
}

#[derive(Debug, PartialEq, Eq)]
pub struct NamespaceStatusReport {
    pub namespace_id: NamespaceId,
    pub status: NamespaceStatus,
    pub workloads: Vec<(WorkloadId, WorkloadStatusReport)>,
    pub services: Vec<(ServiceId, ServiceStatusReport)>,
    pub pods: Vec<PodStatusReport>,
}

#[derive(Debug, PartialEq, Eq)]
pub struct WorkerStatusReport {
    pub worker_id: WorkerId,
    pub max_pods: u32,
    pub available_memory_mb: u64,
    pub active_pods: u32,
}

#[verifier::ext_equal]
pub struct WorkloadReportView {
    pub state: Seq<char>,
    pub pod_id: Option<PodId>,
    pub conditions: Seq<(String, String)>,
}

#[verifier::ext_equal]
pub struct ServiceReportView {
    pub workload_id: WorkloadId,
    pub service_state: Seq<char>,
    pub workload_state: Seq<char>,
    pub pod_id: Option<PodId>,
    pub worker_id: Option<WorkerId>,
    pub backend_need: Option<BackendNeed>,
    pub activation_enabled: bool,
    pub ip: Seq<char>,
    pub workload_conditions: Seq<(String, String)>,
    pub service_conditions: Seq<(String, String)>,
}

#[verifier::ext_equal]
pub struct PodReportView {
    pub pod_id: PodId,
    pub workload_id: WorkloadId,
    pub worker_id: WorkerId,
    pub ip: Seq<char>,
    pub state: PodStatus,
}

#[verifier::ext_equal]
pub struct ReportView {
    pub namespace_id: NamespaceId,
    pub status: NamespaceStatus,
    pub workloads: Seq<(WorkloadId, WorkloadReportView)>,
    pub services: Seq<(ServiceId, ServiceReportView)>,
    pub pods: Seq<PodReportView>,
}

impl WorkloadStatusReport {
    pub open spec fn view(&self) -> WorkloadReportView {
        WorkloadReportView {
            state: self.state@,
            pod_id: self.pod_id,
            conditions: self.conditions@,
        }
    }
}

impl ServiceStatusReport {
    pub open spec fn view(&self) -> ServiceReportView {
        ServiceReportView {
            workload_id: self.workload_id,
            service_state: self.service_state@,
            workload_state: self.workload_state@,
            pod_id: self.pod_id,
            worker_id: self.worker_id,
            backend_need: self.backend_need,
            activation_enabled: self.activation_enabled,
            ip: self.ip@,
            workload_conditions: self.workload_conditions@,
            service_conditions: self.service_conditions@,
        }
    }
}

impl PodStatusReport {
    pub open spec fn view(&self) -> PodReportView {
        PodReportView {
            pod_id: self.pod_id,
            workload_id: self.workload_id,
            worker_id: self.worker_id,
            ip: self.ip@,
            state: self.state,
        }
    }
}

impl NamespaceStatusReport {
    pub open spec fn view(&self) -> ReportView {
        ReportView {
            namespace_id: self.namespace_id,
            status: self.status,
            workloads: self.workloads@.map_values(
                |e: (WorkloadId, WorkloadStatusReport)| (e.0, e.1@),
            ),
            services: self.services@.map_values(|e: (ServiceId, ServiceStatusReport)| (e.0, e.1@)),
            pods: self.pods@.map_values(|p: PodStatusReport| p@),
        }
    }
}

// ---- client events --------------------------------------------------------------------------

/// What a client is told.
#[derive(Debug, PartialEq, Eq)]
pub enum ClientEvent {
    Done,
    Error { message: String },
    NamespaceStatus { namespace_id: NamespaceId, status: NamespaceStatusReport },
    NamespaceList { namespaces: Vec<NamespaceStatusReport> },
    WorkerList { workers: Vec<WorkerStatusReport> },
    WorkerStatus { worker: WorkerStatusReport },
    PodList { pods: Vec<PodStatusReport> },
    ConnectResult {
        server_public_key: [u8; 32],
        endpoint: String,
        client_ip: String,
        subnet: String,
    },
    DeactivateWorkloadResult { deactivated: bool, reason: String },
}

#[verifier::ext_equal]
pub enum ClientEventView {
    Done,
    Error { message: Seq<char> },
    NamespaceStatus { namespace_id: NamespaceId, status: ReportView },
    NamespaceList { namespaces: Seq<ReportView> },
    WorkerList { workers: Seq<WorkerStatusReport> },
    WorkerStatus { worker: WorkerStatusReport },
    PodList { pods: Seq<PodReportView> },
    ConnectResult {
        server_public_key: [u8; 32],
        endpoint: Seq<char>,
        client_ip: Seq<char>,
        subnet: Seq<char>,
    },
    DeactivateWorkloadResult { deactivated: bool, reason: Seq<char> },
}

impl ClientEvent {
    pub open spec fn view(&self) -> ClientEventView {
        match *self {
            ClientEvent::Done => ClientEventView::Done,
            ClientEvent::Error { message } => ClientEventView::Error { message: message@ },
            ClientEvent::NamespaceStatus { namespace_id, status } => {
                ClientEventView::NamespaceStatus { namespace_id, status: status@ }
            },
            ClientEvent::NamespaceList { namespaces } => ClientEventView::NamespaceList {
                namespaces: namespaces@.map_values(|n: NamespaceStatusReport| n@),
            },
            ClientEvent::WorkerList { workers } => ClientEventView::WorkerList {
                workers: workers@,
            },
            ClientEvent::WorkerStatus { worker } => ClientEventView::WorkerStatus { worker },
            ClientEvent::PodList { pods } => ClientEventView::PodList {
                pods: pods@.map_values(|p: PodStatusReport| p@),
            },
            ClientEvent::ConnectResult { server_public_key, endpoint, client_ip, subnet } => {
                ClientEventView::ConnectResult {
                    server_public_key,
                    endpoint: endpoint@,
                    client_ip: client_ip@,
                    subnet: subnet@,
                }
            },
            ClientEvent::DeactivateWorkloadResult { deactivated, reason } => {
                ClientEventView::DeactivateWorkloadResult { deactivated, reason: reason@ }
            },
        }
    }

    /// An error with the given message.
    pub fn error(message: &str) -> (r: Self)
        ensures
            r@ == (ClientEventView::Error { message: message@ }),
    {
        ClientEvent::Error { message: message.to_owned() }
    }
}

// ---- the output of a namespace --------------------------------------------------------------

/// A workload wants a pod.
#[derive(Debug, PartialEq, Eq)]
pub struct PodRequest {
    pub workload_id: WorkloadId,
}

/// A workload wants to go on from a snapshot.
#[derive(Debug, PartialEq, Eq)]
pub struct ResumeRequest {
    pub workload_id: WorkloadId,
    pub artifact_id: ArtifactId,
}

/// A timer to start. The pressure band of the host shortens idle timers.
#[derive(Debug, PartialEq, Eq)]
pub struct TimerRequest {
    pub key: TimerKey,
    pub duration_ms: u64,
    pub band: PressureBand,
}

/// All that one input made a namespace give out.
pub struct NamespaceOutput {
    pub worker_commands: Vec<(WorkerId, WorkerCommand)>,
    pub client_events: Vec<(ClientId, ClientEvent)>,
    pub timers_set: Vec<TimerRequest>,
    pub timers_cancel: Vec<TimerKey>,
    pub pod_requests: Vec<PodRequest>,
    pub resume_requests: Vec<ResumeRequest>,
    pub events: Vec<SmNamespaceEvent>,
    pub destroyed: bool,
}

#[verifier::ext_equal]
pub struct OutputView {
    pub worker_commands: Seq<(WorkerId, CommandView)>,
    pub client_events: Seq<(ClientId, ClientEventView)>,
    pub timers_set: Seq<TimerRequest>,
    pub timers_cancel: Seq<TimerKey>,
    pub pod_requests: Seq<PodRequest>,
    pub resume_requests: Seq<ResumeRequest>,
    pub events: Seq<EventView>,
    pub destroyed: bool,
}

impl OutputView {
    /// Nothing.
    pub open spec fn nothing() -> OutputView {
        OutputView {
            worker_commands: seq![],
            client_events: seq![],
            timers_set: seq![],
            timers_cancel: seq![],
            pod_requests: seq![],
            resume_requests: seq![],
            events: seq![],
            destroyed: false,
        }
    }

    pub open spec fn with_command(self, worker_id: WorkerId, command: CommandView) -> OutputView {
        OutputView { worker_commands: self.worker_commands.push((worker_id, command)), ..self }
    }

    pub open spec fn with_commands(self, commands: Seq<(WorkerId, CommandView)>) -> OutputView {
        OutputView { worker_commands: self.worker_commands + commands, ..self }
    }

    pub open spec fn with_client_event(
        self,
        client_id: ClientId,
        event: ClientEventView,
    ) -> OutputView {
        OutputView { client_events: self.client_events.push((client_id, event)), ..self }
    }

    pub open spec fn with_timer(self, request: TimerRequest) -> OutputView {
        OutputView { timers_set: self.timers_set.push(request), ..self }
    }

    pub open spec fn with_cancel(self, key: TimerKey) -> OutputView {
        OutputView { timers_cancel: self.timers_cancel.push(key), ..self }
    }

    pub open spec fn with_event(self, event: EventView) -> OutputView {
        OutputView { events: self.events.push(event), ..self }
    }

    pub open spec fn with_workload_event(
        self,
        workload_id: WorkloadId,
        event: WorkloadEventView,
    ) -> OutputView {
        self.with_event(EventView::Workload { workload_id, event })
    }

    pub open spec fn with_destroyed(self) -> OutputView {
        OutputView { destroyed: true, ..self }
    }

    /// What `self` and then `other` give out.
    pub open spec fn then_also(self, other: OutputView) -> OutputView {
        OutputView {
            worker_commands: self.worker_commands + other.worker_commands,
            client_events: self.client_events + other.client_events,
            timers_set: self.timers_set + other.timers_set,
            timers_cancel: self.timers_cancel + other.timers_cancel,
            pod_requests: self.pod_requests + other.pod_requests,
            resume_requests: self.resume_requests + other.resume_requests,
            events: self.events + other.events,
            destroyed: self.destroyed || other.destroyed,
        }
    }
}

pub open spec fn command_views(s: Seq<(WorkerId, WorkerCommand)>) -> Seq<(WorkerId, CommandView)> {
    s.map_values(|e: (WorkerId, WorkerCommand)| (e.0, e.1@))
}

pub open spec fn client_event_views(s: Seq<(ClientId, ClientEvent)>) -> Seq<
    (ClientId, ClientEventView),
> {
    s.map_values(|e: (ClientId, ClientEvent)| (e.0, e.1@))
}

pub open spec fn event_views(s: Seq<SmNamespaceEvent>) -> Seq<EventView> {
    s.map_values(|e: SmNamespaceEvent| e@)
}

impl NamespaceOutput {
    pub open spec fn view(&self) -> OutputView {
        OutputView {
            worker_commands: command_views(self.worker_commands@),
            client_events: client_event_views(self.client_events@),
            timers_set: self.timers_set@,
            timers_cancel: self.timers_cancel@,
            pod_requests: self.pod_requests@,
            resume_requests: self.resume_requests@,
            events: event_views(self.events@),
            destroyed: self.destroyed,
        }
    }

    pub fn new() -> (r: Self)
        ensures
            r@ == OutputView::nothing(),
    {
        let r = NamespaceOutput {
            worker_commands: Vec::new(),
            client_events: Vec::new(),
            timers_set: Vec::new(),
            timers_cancel: Vec::new(),
            pod_requests: Vec::new(),
            resume_requests: Vec::new(),
            events: Vec::new(),
            destroyed: false,
        };
        assert(r@ =~= OutputView::nothing());
        r
    }

    /// Tells a worker to do something.
    pub fn command(&mut self, worker_id: WorkerId, command: WorkerCommand)
        ensures
            final(self)@ == old(self)@.with_command(worker_id, command@),
    {
        self.worker_commands.push((worker_id, command));
        assert(self@ =~= old(self)@.with_command(worker_id, command@));
    }

    /// Tells a client something.
    pub fn tell(&mut self, client_id: ClientId, event: ClientEvent)
        ensures
            final(self)@ == old(self)@.with_client_event(client_id, event@),
    {
        self.client_events.push((client_id, event));
        assert(self@ =~= old(self)@.with_client_event(client_id, event@));
    }

    /// Starts a timer.
    pub fn set_timer(&mut self, request: TimerRequest)
        ensures
            final(self)@ == old(self)@.with_timer(request),
    {
        self.timers_set.push(request);
        assert(self@ =~= old(self)@.with_timer(request));
    }

    /// Stops a timer.
    pub fn cancel_timer(&mut self, key: TimerKey)
        ensures
            final(self)@ == old(self)@.with_cancel(key),
    {
        self.timers_cancel.push(key);
        assert(self@ =~= old(self)@.with_cancel(key));
    }

    /// Reports what happened to a workload.
    pub fn workload_event(&mut self, workload_id: WorkloadId, event: SmWorkloadEvent)
        ensures
            final(self)@ == old(self)@.with_workload_event(workload_id, event@),
    {
        self.events.push(SmNamespaceEvent::Workload { workload_id, event });
        assert(self@ =~= old(self)@.with_workload_event(workload_id, event@));
    }

    /// Reports what happened to a service.
    pub fn service_event(
        &mut self,
        service_id: ServiceId,
        workload_id: WorkloadId,
        event: SmServiceEvent,
    )
        ensures
            final(self)@ == old(self)@.with_event(
                EventView::Service { service_id, workload_id, event },
            ),
    {
        self.events.push(SmNamespaceEvent::Service { service_id, workload_id, event });
        assert(self@ =~= old(self)@.with_event(
            EventView::Service { service_id, workload_id, event },
        ));
    }

    /// Says that the namespace is gone.
    pub fn set_destroyed(&mut self)
        ensures
            final(self)@ == old(self)@.with_destroyed(),
    {
        self.destroyed = true;
        assert(self@ =~= old(self)@.with_destroyed());
    }

    /// Asks for a pod.
    pub fn request_pod(&mut self, workload_id: WorkloadId)
        ensures
            final(self)@ == (OutputView {
                pod_requests: old(self)@.pod_requests.push(PodRequest { workload_id }),
                ..old(self)@
            }),
    {
        self.pod_requests.push(PodRequest { workload_id });
        assert(self@ =~= (OutputView {
            pod_requests: old(self)@.pod_requests.push(PodRequest { workload_id }),
            ..old(self)@
        }));
    }

    /// Asks to go on from a snapshot.
    pub fn request_resume(&mut self, workload_id: WorkloadId, artifact_id: ArtifactId)
        ensures
            final(self)@ == (OutputView {
                resume_requests: old(self)@.resume_requests.push(
                    ResumeRequest { workload_id, artifact_id },
                ),
                ..old(self)@
            }),
    {
        self.resume_requests.push(ResumeRequest { workload_id, artifact_id });
        assert(self@ =~= (OutputView {
            resume_requests: old(self)@.resume_requests.push(
                ResumeRequest { workload_id, artifact_id },
            ),
            ..old(self)@
        }));
    }

    /// Appends what another input gave out.
    pub fn merge(&mut self, mut other: NamespaceOutput)
        ensures
            final(self)@ == old(self)@.then_also(other@),
    {
        let ghost theirs = other@;
        self.worker_commands.append(&mut other.worker_commands);
        self.client_events.append(&mut other.client_events);
        self.timers_set.append(&mut other.timers_set);
        self.timers_cancel.append(&mut other.timers_cancel);
        self.pod_requests.append(&mut other.pod_requests);
        self.resume_requests.append(&mut other.resume_requests);
        self.events.append(&mut other.events);
        self.destroyed = self.destroyed || other.destroyed;
        assert(self@ =~= old(self)@.then_also(theirs));
    }
}

impl Default for NamespaceOutput {
    fn default() -> (r: Self)
        ensures
            r@ == OutputView::nothing(),
    {
        NamespaceOutput::new()
    }
}

/// Merging is a concatenation: the order of three outputs does not depend on how they are grouped.
pub proof fn law_merge_associative(a: OutputView, b: OutputView, c: OutputView)
    ensures
        a.then_also(b).then_also(c) == a.then_also(b.then_also(c)),
        a.then_also(OutputView::nothing()) == a,
        OutputView::nothing().then_also(a) == a,
{
    assert(a.then_also(b).then_also(c) =~= a.then_also(b.then_also(c)));
    assert(a.then_also(OutputView::nothing()) =~= a);
    assert(OutputView::nothing().then_also(a) =~= a);
}

} // verus!
